use tzmcfi_tools::arm::inst::{Cond, Disp, Gpr, GprSet, Inst, InstKind, Value, WriteBackMode};
use tzmcfi_tools::arm::format::value_to_string;
use tzmcfi_tools::arm::parse::{
    arm_symbol, find_last_set, gpr, imm, value_imm_or_gpr, ArmDirective, ArmMiscDirective,
    Handler,
};
use tzmcfi_tools::gasio::common::{classify_text, Ch, ErrorKind, Parsed};

fn chars(s: &str) -> Vec<Ch> {
    classify_text(s)
}

fn load(address: Value<String>, disp: Disp, write_back: Option<WriteBackMode>, set: u32, cond: Cond) -> ArmDirective {
    ArmDirective::Inst(Inst {
        kind: InstKind::LoadGpr { address, disp, write_back, set: GprSet(set) },
        cond,
    })
}

fn label(s: &str) -> Value<String> {
    Value::Label(s.to_string())
}

fn reg(n: u8) -> Value<String> {
    Value::Gpr(Gpr(n))
}

#[test]
fn set_with_one_register() {
    for i in 0..32u8 {
        assert_eq!(GprSet(1 << i).unique(), Some(Gpr(i)));
        assert_eq!(GprSet::from(Gpr(i)), GprSet(1 << i));
        assert_eq!(GprSet::from(Gpr(i)).unique(), Some(Gpr(i)));
    }
    assert_eq!(GprSet(0).unique(), None);
    assert_eq!(GprSet(3).unique(), None);
    assert_eq!(GprSet(0x8000_0001).unique(), None);
    assert_eq!(GprSet(u32::MAX).unique(), None);
    assert_eq!(GprSet::from(Gpr(32)), GprSet(0));
    assert_eq!(GprSet::from(Gpr(255)), GprSet(0));
}

#[test]
fn registers_of_a_set_in_rising_order() {
    assert_eq!(GprSet(0).iter(), Vec::new());
    assert_eq!(GprSet(0b1001_0010).iter(), vec![Gpr(1), Gpr(4), Gpr(7)]);
    assert_eq!(GprSet(0x8000_0001).iter(), vec![Gpr(0), Gpr(31)]);
    assert_eq!(GprSet(u32::MAX).iter(), (0..32).map(Gpr).collect::<Vec<_>>());
}

#[test]
fn condition_codes() {
    let all = [
        Cond::Equal,
        Cond::NotEqual,
        Cond::CarrySet,
        Cond::CarryClear,
        Cond::Minus,
        Cond::Plus,
        Cond::Overflow,
        Cond::NoOverflow,
        Cond::UnsignedGreaterThanOrEqual,
        Cond::UnsignedLessThan,
        Cond::SignedGreaterThanOrEqual,
        Cond::SignedLessThan,
        Cond::SignedGreaterThan,
        Cond::SignedLessThanOrEqual,
        Cond::Always,
    ];
    let suffixes = ["eq", "ne", "cs", "cc", "mi", "pl", "vs", "vc", "hi", "ls", "ge", "lt", "gt", "le", ""];
    for (i, cond) in all.iter().enumerate() {
        assert_eq!(Cond::from_value(i as u32), Some(*cond));
        assert_eq!(cond.value(), i as u32);
        assert_eq!(cond.suffix(), suffixes[i]);
        assert_eq!(cond.to_string(), suffixes[i]);
    }
    assert_eq!(Cond::from_value(15), None);
    assert_eq!(Cond::from_value(u32::MAX), None);
}

#[test]
fn registers_are_named_without_regard_to_case() {
    for i in 0..16u8 {
        assert_eq!(Gpr::from_str(&format!("r{}", i)), Some(Gpr(i)));
        assert_eq!(Gpr::from_str(&format!("R{}", i)), Some(Gpr(i)));
    }
    for (name, n) in [("sp", 13), ("SP", 13), ("Lr", 14), ("pC", 15), ("pc", 15)] {
        assert_eq!(Gpr::from_str(name), Some(Gpr(n)));
    }
    for name in ["", "r", "r16", "r01", "sp ", "x0", "r-1", "rsp"] {
        assert_eq!(Gpr::from_str(name), None, "{:?}", name);
    }
}

#[test]
fn register_names() {
    let names = [
        "r0", "r1", "r2", "r3", "r4", "r5", "r6", "r7", "r8", "r9", "r10", "r11", "r12", "sp", "lr", "pc",
    ];
    for (i, name) in names.iter().enumerate() {
        assert_eq!(Gpr(i as u8).to_string(), *name);
        assert_eq!(Gpr::from_str(name), Some(Gpr(i as u8)));
    }
    assert_eq!(GprSet(0).to_string(), "");
    assert_eq!(GprSet(1 << 4).to_string(), "r4");
    assert_eq!(GprSet(0b1110_0000_1001_0001).to_string(), "r0, r4, r7, sp, lr, pc");
}

#[test]
fn values_and_displacements() {
    assert_eq!(value_to_string(&Value::Imm("#12".to_string())), "#12");
    assert_eq!(value_to_string(&label(".L4")), ".L4");
    assert_eq!(value_to_string(&reg(14)), "lr");
    assert_eq!(Disp::Imm(0).to_string(), "#0");
    assert_eq!(Disp::Imm(4096).to_string(), "#4096");
    assert_eq!(Disp::Imm(-4).to_string(), "#-4");
    assert_eq!(Disp::Imm(i32::MIN).to_string(), "#-2147483648");
    assert_eq!(Disp::Imm(i32::MAX).to_string(), "#2147483647");
    assert_eq!(Disp::Gpr(Gpr(2), 0).to_string(), "r2");
    assert_eq!(Disp::Gpr(Gpr(13), 3).to_string(), "sp, lsl #3");
}

#[test]
fn branches_are_written() {
    let branch = |target: Value<String>, link, nonsecure, cond| {
        ArmDirective::Inst(Inst { kind: InstKind::Branch { target, link, nonsecure }, cond })
    };
    assert_eq!(branch(label("main"), false, false, Cond::Always).to_string(), "b main");
    assert_eq!(branch(label("main"), true, false, Cond::Always).to_string(), "bl main");
    assert_eq!(branch(reg(14), false, false, Cond::Always).to_string(), "bx lr");
    assert_eq!(branch(reg(3), true, true, Cond::Always).to_string(), "blxns r3");
    assert_eq!(branch(reg(3), false, true, Cond::NotEqual).to_string(), "bxnsne r3");
    assert_eq!(branch(label(".L1"), false, false, Cond::SignedLessThan).to_string(), "blt .L1");
    assert!(branch(label(".L1"), false, false, Cond::Equal).is_printable());
    assert!(!branch(reg(16), false, false, Cond::Equal).is_printable());
}

#[test]
fn loads_are_written() {
    let r5 = 1 << 5;
    assert_eq!(load(label("pool"), Disp::Imm(0), None, r5, Cond::Always).to_string(), "ldr r5, pool");
    assert_eq!(load(reg(1), Disp::Imm(0), None, r5, Cond::Equal).to_string(), "ldreq r5, [r1]");
    assert_eq!(load(reg(1), Disp::Imm(8), None, r5, Cond::Always).to_string(), "ldr r5, [r1, #8]");
    assert_eq!(
        load(reg(1), Disp::Gpr(Gpr(2), 2), None, r5, Cond::Always).to_string(),
        "ldr r5, [r1, r2, lsl #2]"
    );
    assert_eq!(load(reg(1), Disp::Gpr(Gpr(2), 0), None, r5, Cond::Always).to_string(), "ldr r5, [r1, r2]");
    assert_eq!(
        load(reg(13), Disp::Imm(-8), Some(WriteBackMode::PreIndex), r5, Cond::Always).to_string(),
        "ldr r5, [sp, #-8]!"
    );
    assert_eq!(
        load(reg(13), Disp::Imm(4), Some(WriteBackMode::PostIndex), 1 << 15, Cond::Always).to_string(),
        "ldr pc, [sp], #4"
    );
    assert_eq!(
        load(reg(13), Disp::Imm(4), Some(WriteBackMode::PostIndex), 0x80f0, Cond::Always).to_string(),
        "ldmia sp!, {r4, r5, r6, r7, pc}"
    );
    assert_eq!(
        load(reg(0), Disp::Imm(-4), Some(WriteBackMode::PreIndex), 0b110, Cond::Plus).to_string(),
        "ldmdbpl r0!, {r1, r2}"
    );
    assert_eq!(
        load(reg(0), Disp::Imm(4), Some(WriteBackMode::PostIndex), 0, Cond::Always).to_string(),
        "ldmia r0!, {}"
    );
}

#[test]
fn loads_that_cannot_be_written() {
    let r5 = 1 << 5;
    let unsupported = [
        load(label("pool"), Disp::Imm(4), None, r5, Cond::Always),
        load(label("pool"), Disp::Imm(0), Some(WriteBackMode::PreIndex), r5, Cond::Always),
        load(reg(1), Disp::Gpr(Gpr(2), 0), Some(WriteBackMode::PreIndex), r5, Cond::Always),
        load(reg(1), Disp::Imm(4), Some(WriteBackMode::PreIndex), 0b11, Cond::Always),
        load(reg(1), Disp::Imm(-4), Some(WriteBackMode::PostIndex), 0b11, Cond::Always),
        load(reg(1), Disp::Imm(4), None, 0b11, Cond::Always),
        load(reg(16), Disp::Imm(0), None, r5, Cond::Always),
        load(reg(1), Disp::Gpr(Gpr(99), 0), None, r5, Cond::Always),
        load(reg(1), Disp::Imm(0), None, 1 << 16, Cond::Always),
        load(reg(1), Disp::Imm(4), Some(WriteBackMode::PostIndex), 0x1_00f0, Cond::Always),
    ];
    for d in unsupported.iter() {
        assert!(!d.is_printable(), "{:?}", d);
    }
    assert!(load(reg(1), Disp::Imm(0), None, r5, Cond::Always).is_printable());
    assert!(load(label("x"), Disp::Imm(4), Some(WriteBackMode::PostIndex), 0b11, Cond::Always).is_printable());
}

#[test]
fn other_instructions_are_written_as_they_were_read() {
    let d = ArmDirective::Misc(ArmMiscDirective::Adc, Cond::CarrySet, "r0, r1, r2".to_string());
    assert!(d.is_printable());
    assert_eq!(d.to_string(), "adccs r0, r1, r2");
    assert_eq!(ArmMiscDirective::Adc.as_str(), "adc");
}

#[test]
fn mnemonics_carry_conditions() {
    let suffixes = [
        ("eq", Cond::Equal),
        ("ne", Cond::NotEqual),
        ("cs", Cond::CarrySet),
        ("cc", Cond::CarryClear),
        ("mi", Cond::Minus),
        ("pl", Cond::Plus),
        ("vs", Cond::Overflow),
        ("vc", Cond::NoOverflow),
        ("hi", Cond::UnsignedGreaterThanOrEqual),
        ("ls", Cond::UnsignedLessThan),
        ("ge", Cond::SignedGreaterThanOrEqual),
        ("lt", Cond::SignedLessThan),
        ("gt", Cond::SignedGreaterThan),
        ("le", Cond::SignedLessThanOrEqual),
        ("hs", Cond::CarrySet),
        ("lo", Cond::CarryClear),
        ("al", Cond::Always),
        ("", Cond::Always),
    ];
    for (suffix, cond) in suffixes {
        for (mnemonic, link) in [("b", false), ("bl", true), ("B", false), ("Bl", true)] {
            let key = format!("{}{}", mnemonic, suffix.to_uppercase());
            let expected = ArmDirective::Inst(Inst {
                kind: InstKind::Branch { target: Value::Label("there".to_string()), link, nonsecure: false },
                cond,
            });
            assert_eq!(ArmDirective::from_str(&key, "\tthere, ignored"), Ok(Some(expected)), "{}", key);
        }
        let key = format!("adc{}", suffix);
        assert_eq!(
            ArmDirective::from_str(&key, " r0 "),
            Ok(Some(ArmDirective::Misc(ArmMiscDirective::Adc, cond, " r0 ".to_string())))
        );
    }
}

#[test]
fn unknown_mnemonics_are_left_to_others() {
    for key in ["", "mov", "bx", "blx", "bxx", "adcx", ".text", "b ", "beqq"] {
        assert_eq!(ArmDirective::from_str(key, "r0"), Ok(None), "{:?}", key);
    }
}

#[test]
fn branch_needs_a_label() {
    assert_eq!(ArmDirective::from_str("b", ""), Err("unexpected EOF".to_string()));
    assert_eq!(ArmDirective::from_str("b", " \n "), Err("unexpected EOF".to_string()));
    assert_eq!(ArmDirective::from_str("b", "[r0]"), Err("failed to parse TakeWhile1".to_string()));
    assert_eq!(
        ArmDirective::from_str("b", " \r\n\t x "),
        Ok(Some(ArmDirective::Inst(Inst {
            kind: InstKind::Branch { target: Value::Label("x".to_string()), link: false, nonsecure: false },
            cond: Cond::Always,
        })))
    );
}

#[test]
fn handlers() {
    assert_eq!(Handler::BranchLabel(false).key(), "b");
    assert_eq!(Handler::BranchLabel(true).key(), "bl");
    assert_eq!(Handler::Misc(ArmMiscDirective::Adc, false).key(), "adc");
    assert!(Handler::BranchLabel(true).accepts_cond());
    assert!(Handler::Misc(ArmMiscDirective::Adc, true).accepts_cond());
    assert!(!Handler::Misc(ArmMiscDirective::Adc, false).accepts_cond());
    assert_eq!(
        Handler::Misc(ArmMiscDirective::Adc, false).parse(&chars("x"), Cond::Minus),
        Ok(ArmDirective::Misc(ArmMiscDirective::Adc, Cond::Minus, "x".to_string()))
    );
}

#[test]
fn last_match_counts() {
    assert_eq!(find_last_set(&[]), None);
    assert_eq!(find_last_set(&[false, false]), None);
    assert_eq!(find_last_set(&[true, false, true, false]), Some(2));
    assert_eq!(find_last_set(&[true]), Some(0));

    let mut matches = vec![false; 19];
    assert_eq!(Gpr::from_matches(&matches), None);
    matches[13] = true;
    assert_eq!(Gpr::from_matches(&matches), Some(Gpr(13)));
    matches[16] = true;
    assert_eq!(Gpr::from_matches(&matches), Some(Gpr(13)));
    matches[3] = true;
    matches[18] = true;
    assert_eq!(Gpr::from_matches(&matches), Some(Gpr(15)));
    assert_eq!(Gpr::from_matches(&[]), None);
    assert_eq!(Gpr::from_matches(&[false, true]), Some(Gpr(1)));
    // A flag beyond the names stands for nothing.
    assert_eq!(Gpr::from_matches(&vec![true; 20]), None);

    // Eighteen mnemonics each for `adc`, `b` and `bl`, in this order.
    let branch = |link: bool, cond: Cond| {
        Ok(Some(ArmDirective::Inst(Inst {
            kind: InstKind::Branch { target: Value::Label("x".to_string()), link, nonsecure: false },
            cond,
        })))
    };
    let rest = chars(" x ");
    let mut matches = vec![false; 54];
    assert_eq!(ArmDirective::from_matches(&matches, &rest), Ok(None));
    matches[18] = true;
    assert_eq!(ArmDirective::from_matches(&matches, &rest), branch(false, Cond::Equal));
    matches[0] = true;
    assert_eq!(ArmDirective::from_matches(&matches, &rest), branch(false, Cond::Equal));
    matches[53] = true;
    assert_eq!(ArmDirective::from_matches(&matches, &rest), branch(true, Cond::Always));
    matches[53] = false;
    matches[18] = false;
    matches[1] = true;
    assert_eq!(
        ArmDirective::from_matches(&matches, &rest),
        Ok(Some(ArmDirective::Misc(ArmMiscDirective::Adc, Cond::NotEqual, " x ".to_string())))
    );
    assert_eq!(ArmDirective::from_matches(&vec![true; 55], &rest), Ok(None));
    matches[36] = true;
    assert_eq!(ArmDirective::from_matches(&matches, &chars("")), Err("unexpected EOF".to_string()));
}

#[test]
fn operands_are_read() {
    match arm_symbol(&chars("\n  loop \n x"), 0) {
        Parsed::Done { rest, value } => {
            assert_eq!(value, "loop");
            assert_eq!(rest, 10);
        }
        other => panic!("unexpected {:?}", other),
    }
    match imm(&chars("#-12, r0"), 0) {
        Parsed::Done { rest, value } => {
            assert_eq!(value, "-12");
            assert_eq!(rest, 4);
        }
        other => panic!("unexpected {:?}", other),
    }
    assert!(matches!(imm(&chars("12"), 0), Parsed::Error(ErrorKind::Char)));
    assert!(matches!(imm(&chars("#x"), 0), Parsed::Error(ErrorKind::TakeWhile1)));
    assert!(matches!(imm(&chars("#"), 0), Parsed::Incomplete));
    assert!(matches!(imm(&chars(""), 0), Parsed::Incomplete));
    match gpr(&chars(" LR ]"), 0) {
        Parsed::Done { rest, value } => {
            assert_eq!(value, Gpr(14));
            assert_eq!(rest, 4);
        }
        other => panic!("unexpected {:?}", other),
    }
    assert!(matches!(gpr(&chars("r16"), 0), Parsed::Error(ErrorKind::MapOpt)));
    assert!(matches!(gpr(&chars("#1"), 0), Parsed::Error(ErrorKind::TakeWhile1)));
    match value_imm_or_gpr(&chars("  #40 ,"), 0) {
        Parsed::Done { rest, value } => {
            assert_eq!(value, Value::Imm("40".to_string()));
            assert_eq!(rest, 6);
        }
        other => panic!("unexpected {:?}", other),
    }
    match value_imm_or_gpr(&chars("r7"), 0) {
        Parsed::Done { rest, value } => {
            assert_eq!(value, Value::Gpr(Gpr(7)));
            assert_eq!(rest, 2);
        }
        other => panic!("unexpected {:?}", other),
    }
    for text in ["", "  ", "#", "label", "[r0]"] {
        assert!(matches!(value_imm_or_gpr(&chars(text), 0), Parsed::Error(ErrorKind::Alt)), "{:?}", text);
    }
}
