use tzmcfi_tools::arm::inst::{Cond, Inst, InstKind, Value};
use tzmcfi_tools::arm::parse::{ArmDirective, ArmMiscDirective};
use tzmcfi_tools::gasio::arm::ArmGasDirective;
use tzmcfi_tools::gasio::common::{
    classify, classify_text, is_imm_char, is_symbol_char, is_ws_but_newline, map_iresult, symbol,
    symbol_no_ws, text_between, ws_but_newline, Ch, CharClass, ErrorKind, Parsed,
};
use tzmcfi_tools::gasio::parser::{directive, label, labels, parse, parse_chars, statement};
use tzmcfi_tools::gasio::{
    Directive, Error, GasDirective, GasMiscDirective, GasParser, RawDirective, Statement,
};

fn chars(s: &str) -> Vec<Ch> {
    classify_text(s)
}

fn raw(key: &str, rest: &str) -> RawDirective {
    RawDirective { key: key.to_string(), rest: rest.to_string() }
}

/// The labels, and key and rest of the directive, of a statement.
fn parts(s: &Statement) -> (Vec<String>, Option<(String, String)>) {
    (s.labels.clone(), s.directive.as_ref().map(|d| (d.key.clone(), d.rest.clone())))
}

fn stmt(labels: &[&str], directive: Option<(&str, &str)>) -> (Vec<String>, Option<(String, String)>) {
    (
        labels.iter().map(|l| l.to_string()).collect(),
        directive.map(|(k, r)| (k.to_string(), r.to_string())),
    )
}

/// All statements of a text, or the statements up to an error and the error.
fn read_all(text: &str) -> (Vec<(Vec<String>, Option<(String, String)>)>, Option<(String, usize)>) {
    let mut parser = GasParser::new(text);
    let mut out = Vec::new();
    loop {
        match parser.next() {
            Ok(Some(s)) => out.push(parts(&s)),
            Ok(None) => return (out, None),
            Err(Error::SyntaxError { message, line }) => return (out, Some((message, line))),
            Err(Error::IoError(message)) => panic!("the parser reads no files: {}", message),
        }
    }
}

#[test]
fn character_classes() {
    for c in ['a', 'Z', '0', '9', '.', '_', '$', 'é', 'ß'] {
        assert!(is_symbol_char(c), "{:?}", c);
    }
    for c in [' ', '\n', ':', '#', '@', '-', '/', '*', ','] {
        assert!(!is_symbol_char(c), "{:?}", c);
    }
    for c in [' ', '\t', '\r', '\u{a0}'] {
        assert!(is_ws_but_newline(c), "{:?}", c);
    }
    for c in ['\n', 'a', '.'] {
        assert!(!is_ws_but_newline(c), "{:?}", c);
    }
    for c in ['0', '5', '9', '-'] {
        assert!(is_imm_char(c), "{:?}", c);
    }
    for c in ['a', ' ', '+', '#', '٣'] {
        assert!(!is_imm_char(c), "{:?}", c);
    }
}

#[test]
fn characters_are_classified() {
    assert_eq!(classify('a'), Ch { c: 'a', alphanumeric: true, whitespace: false });
    assert_eq!(classify('7'), Ch { c: '7', alphanumeric: true, whitespace: false });
    assert_eq!(classify('\n'), Ch { c: '\n', alphanumeric: false, whitespace: true });
    assert_eq!(classify('\u{3000}'), Ch { c: '\u{3000}', alphanumeric: false, whitespace: true });
    assert_eq!(classify('.'), Ch { c: '.', alphanumeric: false, whitespace: false });
    assert_eq!(classify_text(""), Vec::new());
    assert_eq!(classify_text("a b"), vec![classify('a'), classify(' '), classify('b')]);
    assert_eq!(text_between(&chars("héllo wörld"), 1, 8), "éllo wö");
    assert_eq!(text_between(&chars("abc"), 2, 2), "");
}

#[test]
fn white_space_is_what_unicode_lists() {
    let listed = |c: char| {
        matches!(
            c,
            '\u{9}'..='\u{d}'
                | ' '
                | '\u{85}'
                | '\u{a0}'
                | '\u{1680}'
                | '\u{2000}'..='\u{200a}'
                | '\u{2028}'
                | '\u{2029}'
                | '\u{202f}'
                | '\u{205f}'
                | '\u{3000}'
        )
    };
    let mut count = 0;
    for code in 0..=0x10ffffu32 {
        if let Some(c) = char::from_u32(code) {
            let ch = classify(c);
            assert_eq!(ch.c, c);
            assert_eq!(ch.whitespace, listed(c), "{:?}", c);
            assert_eq!(is_ws_but_newline(c), listed(c) && c != '\n', "{:?}", c);
            if ch.whitespace {
                count += 1;
            }
        }
    }
    assert_eq!(count, 25);
}

#[test]
fn letters_and_digits_of_the_basic_alphabet() {
    for code in 0..128u8 {
        let c = code as char;
        let expected = c.is_ascii_lowercase() || c.is_ascii_uppercase() || c.is_ascii_digit();
        assert_eq!(classify(c).alphanumeric, expected, "{:?}", c);
        assert_eq!(is_symbol_char(c), expected || c == '.' || c == '_' || c == '$', "{:?}", c);
    }
    assert!(classify('é').alphanumeric);
    assert!(classify('٣').alphanumeric);
    assert!(!classify('→').alphanumeric);
}

#[test]
fn classes_go_by_what_is_said_of_a_character() {
    // The grammar asks nothing of a character but what its classification
    // says: a letter that is said to be none stands in no symbol.
    let plain = Ch { c: 'a', alphanumeric: false, whitespace: false };
    let odd = Ch { c: '*', alphanumeric: true, whitespace: true };
    assert!(!CharClass::Symbol.contains(plain));
    assert!(CharClass::Symbol.contains(odd));
    assert!(CharClass::Blank.contains(odd));
    assert!(!CharClass::Blank.contains(Ch { c: '\n', alphanumeric: false, whitespace: true }));
    assert!(!CharClass::Space.contains(odd));
    assert!(CharClass::Space.contains(Ch { c: '\r', alphanumeric: false, whitespace: false }));
    assert!(CharClass::Imm.contains(Ch { c: '-', alphanumeric: false, whitespace: false }));
    assert!(!CharClass::Imm.contains(plain));
    let star = Ch { c: '*', alphanumeric: true, whitespace: false };
    let line = vec![odd, star, star, Ch { c: ':', alphanumeric: false, whitespace: false }, classify('\n')];
    assert_eq!(parts(&parse_chars(&line).unwrap()), stmt(&["**"], None));
    let line = vec![plain, Ch { c: ':', alphanumeric: false, whitespace: false }, classify('\n')];
    assert_eq!(parts(&parse_chars(&line).unwrap()), stmt(&[], None));
}

#[test]
fn blanks_and_symbols() {
    let input = chars("  \t.text  rest\n");
    assert_eq!(ws_but_newline(&input, 0), 3);
    assert_eq!(ws_but_newline(&input, 3), 3);
    assert_eq!(ws_but_newline(&input, input.len()), input.len());
    match symbol_no_ws(&input, 3) {
        Parsed::Done { rest, value } => {
            assert_eq!(rest, 8);
            assert_eq!(value, ".text");
        }
        other => panic!("unexpected {:?}", other),
    }
    assert!(matches!(symbol_no_ws(&input, 0), Parsed::Error(ErrorKind::TakeWhile1)));
    assert!(matches!(symbol_no_ws(&input, input.len()), Parsed::Incomplete));
    match symbol(&input, 0) {
        Parsed::Done { rest, value } => {
            assert_eq!(rest, 10);
            assert_eq!(value, ".text");
        }
        other => panic!("unexpected {:?}", other),
    }
    // A line feed is no blank.
    assert!(matches!(symbol(&chars(" \n x"), 0), Parsed::Error(ErrorKind::TakeWhile1)));
    assert!(matches!(symbol(&chars("   "), 0), Parsed::Incomplete));
}

#[test]
fn reader_results_become_results() {
    assert_eq!(map_iresult(Parsed::Done { rest: 3, value: 7 }), Ok(7));
    assert_eq!(map_iresult::<u8>(Parsed::Incomplete), Err("unexpected EOF".to_string()));
    for (kind, name) in [
        (ErrorKind::TakeWhile1, "TakeWhile1"),
        (ErrorKind::Char, "Char"),
        (ErrorKind::TakeUntil, "TakeUntil"),
        (ErrorKind::MapOpt, "MapOpt"),
        (ErrorKind::Alt, "Alt"),
        (ErrorKind::Many0, "Many0"),
    ] {
        assert_eq!(kind.name(), name);
        assert_eq!(map_iresult::<u8>(Parsed::Error(kind)), Err(format!("failed to parse {}", name)));
    }
}

#[test]
fn labels_are_read() {
    let input = chars(" main : .L1:\tb x\n");
    match label(&input, 0) {
        Parsed::Done { rest, value } => {
            assert_eq!(value, "main");
            assert_eq!(rest, 8);
        }
        other => panic!("unexpected {:?}", other),
    }
    match labels(&input, 0) {
        Parsed::Done { rest, value } => {
            assert_eq!(value, vec!["main", ".L1"]);
            assert_eq!(rest, 13);
        }
        other => panic!("unexpected {:?}", other),
    }
    assert!(matches!(label(&chars("b x\n"), 0), Parsed::Error(ErrorKind::Char)));
    assert!(matches!(label(&chars(": x\n"), 0), Parsed::Error(ErrorKind::TakeWhile1)));
    assert!(matches!(label(&chars("main"), 0), Parsed::Incomplete));
    assert!(matches!(labels(&chars("a: b"), 0), Parsed::Incomplete));
    match labels(&chars("a: b c\n"), 0) {
        Parsed::Done { rest, value } => {
            assert_eq!(value, vec!["a"]);
            assert_eq!(rest, 3);
        }
        other => panic!("unexpected {:?}", other),
    }
}

#[test]
fn directives_are_read() {
    let input = chars("  .align  2, 3 \n");
    match directive(&input, 0) {
        Parsed::Done { rest, value } => {
            assert_eq!(value.key, ".align");
            assert_eq!(value.rest, "2, 3 ");
            assert_eq!(rest, input.len() - 1);
        }
        other => panic!("unexpected {:?}", other),
    }
    assert!(matches!(directive(&chars(".text"), 0), Parsed::Incomplete));
    assert!(matches!(directive(&chars(".text x"), 0), Parsed::Error(ErrorKind::TakeUntil)));
    assert!(matches!(directive(&chars("\n"), 0), Parsed::Error(ErrorKind::TakeWhile1)));
    match directive(&chars(".text\n"), 0) {
        Parsed::Done { value, .. } => {
            assert_eq!(value.key, ".text");
            assert_eq!(value.rest, "");
        }
        other => panic!("unexpected {:?}", other),
    }
}

#[test]
fn statements_are_read() {
    assert_eq!(parts(&parse("\n").unwrap()), stmt(&[], None));
    assert_eq!(parts(&parse("   \t\n").unwrap()), stmt(&[], None));
    assert_eq!(parts(&parse("main:\n").unwrap()), stmt(&["main"], None));
    assert_eq!(
        parts(&parse("a: b: ldr r0, [r1]\n").unwrap()),
        stmt(&["a", "b"], Some(("ldr", "r0, [r1]")))
    );
    assert_eq!(parts(&parse("a:b\n").unwrap()), stmt(&["a"], Some(("b", ""))));
    assert_eq!(parts(&parse("\t.cpu cortex-m33\nnext line\n").unwrap()), stmt(&[], Some((".cpu", "cortex-m33"))));
    // Without a line feed there is no directive, and a text that ends in a
    // symbol might go on.
    assert_eq!(parts(&parse("foo bar").unwrap()), stmt(&[], None));
    assert_eq!(parse("foo").err(), Some("unexpected EOF".to_string()));
    assert_eq!(parse("").err(), Some("unexpected EOF".to_string()));
    assert_eq!(parse("  ").err(), Some("unexpected EOF".to_string()));
    match statement(&chars("x: y z\n"), 0) {
        Parsed::Done { rest, value } => {
            assert_eq!(rest, 6);
            assert_eq!(parts(&value), stmt(&["x"], Some(("y", "z"))));
        }
        other => panic!("unexpected {:?}", other),
    }
}

#[test]
fn file_is_read_line_by_line() {
    let text = "\t.text\nmain:\n\tbl  helper\n\n.L2: bx lr\n";
    let (statements, error) = read_all(text);
    assert_eq!(error, None);
    assert_eq!(
        statements,
        vec![
            stmt(&[], Some((".text", ""))),
            stmt(&["main"], None),
            stmt(&[], Some(("bl", "helper"))),
            stmt(&[], None),
            stmt(&[".L2"], Some(("bx", "lr"))),
        ]
    );
    assert_eq!(read_all(""), (Vec::new(), None));
}

#[test]
fn line_comments_are_taken_out() {
    let (statements, error) = read_all("mov r0, r1 @ copy\n# all of it\nadd r0 # one\n@\n");
    assert_eq!(error, None);
    assert_eq!(
        statements,
        vec![
            stmt(&[], Some(("mov", "r0, r1 "))),
            stmt(&[], None),
            stmt(&[], Some(("add", "r0 "))),
            stmt(&[], None),
        ]
    );
}

#[test]
fn block_comments_are_taken_out() {
    let (statements, error) = read_all("a: /* one */ mov /* two */ r0\nnext\n");
    assert_eq!(error, None);
    assert_eq!(statements, vec![stmt(&["a"], Some(("mov", "r0"))), stmt(&[], Some(("next", "")))]);
    // A block comment makes one logical line of the lines that it spans.
    let (statements, error) = read_all("mov /* starts\ngoes on\nends */ r0 @ tail\nnext\n");
    assert_eq!(error, None);
    assert_eq!(statements, vec![stmt(&[], Some(("mov", "r0 "))), stmt(&[], Some(("next", "")))]);
    // A line comment hides the start of a block comment, not the other way
    // round.
    let (statements, _) = read_all("a # /* \nb /* # */ c\n");
    assert_eq!(statements, vec![stmt(&[], Some(("a", ""))), stmt(&[], Some(("b", "c")))]);
    // The star that opens a comment also closes one.
    let (statements, _) = read_all("x /*/ y */ z\n");
    assert_eq!(statements, vec![stmt(&[], Some(("x", "y */ z")))]);
}

#[test]
fn errors_name_the_last_line_read() {
    let (statements, error) = read_all("ok\nmov /* never\nends\n");
    assert_eq!(statements, vec![stmt(&[], Some(("ok", "")))]);
    assert_eq!(error, Some(("found a unterminated block comment".to_string(), 3)));
    let (statements, error) = read_all("/*\n");
    assert!(statements.is_empty());
    assert_eq!(error, Some(("found a unterminated block comment".to_string(), 1)));
    let (statements, error) = read_all("a\n\n/* b\n/* c\nd /");
    assert_eq!(statements.len(), 2);
    assert_eq!(error, Some(("found a unterminated block comment".to_string(), 5)));
}

#[test]
fn last_line_may_lack_its_line_feed() {
    let (statements, error) = read_all("first\nlast x");
    assert_eq!(error, None);
    assert_eq!(statements, vec![stmt(&[], Some(("first", ""))), stmt(&[], Some(("last", "x")))]);
    let (statements, error) = read_all("x");
    assert_eq!(error, None);
    assert_eq!(statements, vec![stmt(&[], Some(("x", "")))]);
    let (statements, error) = read_all("/* x */");
    assert_eq!(error, None);
    assert_eq!(statements, vec![stmt(&[], None)]);
    let (statements, error) = read_all("a: /* one\ntwo */ b c");
    assert_eq!(error, None);
    assert_eq!(statements, vec![stmt(&["a"], Some(("b", "c")))]);
    let (statements, error) = read_all("/*");
    assert!(statements.is_empty());
    assert_eq!(error, Some(("found a unterminated block comment".to_string(), 1)));
    // A carriage return before the line feed is a blank like any other.
    let (statements, error) = read_all("mov r0\r\nnext\r\n");
    assert_eq!(error, None);
    assert_eq!(statements, vec![stmt(&[], Some(("mov", "r0\r"))), stmt(&[], Some(("next", "")))]);
}

#[test]
fn parser_goes_on_after_the_end() {
    let mut parser = GasParser::new("a\n");
    assert!(matches!(parser.next(), Ok(Some(_))));
    assert!(matches!(parser.next(), Ok(None)));
    assert!(matches!(parser.next(), Ok(None)));
}

#[test]
fn assembler_directives_are_known_by_name() {
    let all = [
        (GasMiscDirective::Arch, ".arch"),
        (GasMiscDirective::Ascii, ".ascii"),
        (GasMiscDirective::Align, ".align"),
        (GasMiscDirective::CfiDefCfaOffset, ".cfi_def_cfa_offset"),
        (GasMiscDirective::CfiEndproc, ".cfi_endproc"),
        (GasMiscDirective::CfiOffset, ".cfi_offset"),
        (GasMiscDirective::CfiRestore, ".cfi_restore"),
        (GasMiscDirective::CfiSections, ".cfi_sections"),
        (GasMiscDirective::CfiStartproc, ".cfi_startproc"),
        (GasMiscDirective::Cpu, ".cpu"),
        (GasMiscDirective::EabiAttribute, ".eabi_attribute"),
        (GasMiscDirective::Extern, ".extern"),
        (GasMiscDirective::File, ".file"),
        (GasMiscDirective::Fpu, ".fpu"),
        (GasMiscDirective::Global, ".global"),
        (GasMiscDirective::Ident, ".ident"),
        (GasMiscDirective::Loc, ".loc"),
        (GasMiscDirective::Section, ".section"),
        (GasMiscDirective::SetValue, ".set"),
        (GasMiscDirective::Size, ".size"),
        (GasMiscDirective::Sleb128, ".sleb128"),
        (GasMiscDirective::Syntax, ".syntax"),
        (GasMiscDirective::Text, ".text"),
        (GasMiscDirective::Thumb, ".thumb"),
        (GasMiscDirective::Thumbfunc, ".thumb_func"),
        (GasMiscDirective::Type, ".type"),
        (GasMiscDirective::Uleb128, ".uleb128"),
        (GasMiscDirective::Weak, ".weak"),
        (GasMiscDirective::Byte, ".byte"),
        (GasMiscDirective::Word, ".word"),
        (GasMiscDirective::TwoByte, ".2byte"),
        (GasMiscDirective::FourByte, ".4byte"),
    ];
    for (kind, name) in all {
        assert_eq!(kind.as_str(), name);
        let read = GasDirective::from_raw_directive(&raw(name, "1, 2")).unwrap();
        assert_eq!(read, GasDirective::Misc(kind, "1, 2".to_string()));
        assert_eq!(read.to_string(), format!("{} 1, 2", name));
    }
}

#[test]
fn unknown_assembler_directive_is_refused() {
    assert_eq!(
        GasDirective::from_raw_directive(&raw(".nonesuch", "x")),
        Err("Unrecognized directive: '.nonesuch'".to_string())
    );
    // The names of the assembler's directives are matched letter for letter.
    assert_eq!(
        GasDirective::from_raw_directive(&raw(".TEXT", "")),
        Err("Unrecognized directive: '.TEXT'".to_string())
    );
    assert_eq!(
        GasDirective::from_raw_directive(&raw("", "")),
        Err("Unrecognized directive: ''".to_string())
    );
}

#[test]
fn statements_of_the_machine_go_before_those_of_the_assembler() {
    let branch = |link: bool, cond: Cond, label: &str| {
        Directive::Target(ArmDirective::Inst(Inst {
            kind: InstKind::Branch { target: Value::Label(label.to_string()), link, nonsecure: false },
            cond,
        }))
    };
    assert_eq!(ArmGasDirective::from_raw_directive(&raw("bl", "helper")), Ok(branch(true, Cond::Always, "helper")));
    assert_eq!(ArmGasDirective::from_raw_directive(&raw("BNE", " .L3 ")), Ok(branch(false, Cond::NotEqual, ".L3")));
    assert_eq!(
        ArmGasDirective::from_raw_directive(&raw("adcs", "r0, r1")),
        Err("Unrecognized directive: 'adcs'".to_string())
    );
    assert_eq!(
        ArmGasDirective::from_raw_directive(&raw("adc", "r0, r1")),
        Ok(Directive::Target(ArmDirective::Misc(ArmMiscDirective::Adc, Cond::Always, "r0, r1".to_string())))
    );
    assert_eq!(
        ArmGasDirective::from_raw_directive(&raw(".word", "42")),
        Ok(Directive::Gas(GasDirective::Misc(GasMiscDirective::Word, "42".to_string())))
    );
    assert_eq!(
        ArmGasDirective::from_raw_directive(&raw("b", "")),
        Err("unexpected EOF".to_string())
    );
    assert_eq!(
        ArmGasDirective::from_raw_directive(&raw("b", "#5")),
        Err("failed to parse TakeWhile1".to_string())
    );
    let from: Directive<ArmDirective> = GasDirective::Misc(GasMiscDirective::Text, String::new()).into();
    assert_eq!(from, Directive::Gas(GasDirective::Misc(GasMiscDirective::Text, String::new())));
}

#[test]
fn file_of_statements_is_classified() {
    let text = "\t.syntax unified\nloop: /* spin */ bne loop\n\tbl\tdone @ leave\n";
    let mut parser = GasParser::new(text);
    let mut seen = Vec::new();
    while let Some(statement) = parser.next().unwrap() {
        if let Some(d) = &statement.directive {
            seen.push(ArmGasDirective::from_raw_directive(d).unwrap());
        }
    }
    assert_eq!(seen.len(), 3);
    assert_eq!(seen[0], Directive::Gas(GasDirective::Misc(GasMiscDirective::Syntax, "unified".to_string())));
    match &seen[1] {
        Directive::Target(d) => assert_eq!(d.to_string(), "bne loop"),
        other => panic!("unexpected {:?}", other),
    }
    match &seen[2] {
        Directive::Target(d) => assert_eq!(d.to_string(), "bl done"),
        other => panic!("unexpected {:?}", other),
    }
}
