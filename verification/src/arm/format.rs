//! The textual form of instructions, as an assembler file has them.

use vstd::prelude::*;
use vstd::string::*;

use super::inst::{Cond, Disp, Gpr, GprSet, Inst, InstKind, Value, WriteBackMode};
use super::parse::{
    ascii_text, gpr_matches, gpr_named, gpr_names, lemma_last_set_at, lemma_same_without_capitals,
    no_capitals, value_view, ArmDirective, ArmDirectiveView, ArmMiscDirective,
};
use crate::text::{decimal, push_decimal};

verus! {

impl ArmMiscDirective {
    /// The mnemonic.
    pub fn as_str(&self) -> (r: &'static str)
        ensures
            r@ == self.spec_as_str(),
    {
        match self {
            ArmMiscDirective::Adc => "adc",
        }
    }
}

/// The numeral of `x`, with a minus sign if it is negative.
pub open spec fn signed_decimal(x: int) -> Seq<char> {
    if x < 0 {
        "-"@ + decimal((-x) as nat)
    } else {
        decimal(x as nat)
    }
}

/// Appends the numeral of `x`.
fn push_signed(s: &mut String, x: i32)
    ensures
        final(s)@ == old(s)@ + signed_decimal(x as int),
{
    if x < 0 {
        s.append("-");
        push_decimal(s, (-(x as i64)) as u64);
        assert(s@ =~= old(s)@ + signed_decimal(x as int));
    } else {
        push_decimal(s, x as u64);
    }
}

impl Gpr {
    /// The name of the register: `r0` to `r12`, `sp`, `lr` and `pc`.
    /// Numbers above 15 are not those of registers.
    pub open spec fn spec_name(self) -> Seq<char> {
        if self.0 == 13 {
            "sp"@
        } else if self.0 == 14 {
            "lr"@
        } else if self.0 == 15 {
            "pc"@
        } else {
            "r"@ + decimal(self.0 as nat)
        }
    }

    /// Writes the name of the register.
    pub fn to_string(&self) -> (r: String)
        requires
            self.0 < 16,
        ensures
            r@ == self.spec_name(),
    {
        if self.0 == 13 {
            "sp".to_owned()
        } else if self.0 == 14 {
            "lr".to_owned()
        } else if self.0 == 15 {
            "pc".to_owned()
        } else {
            let mut s = "r".to_owned();
            push_decimal(&mut s, self.0 as u64);
            s
        }
    }
}

/// The position, among the names of the registers, of the name that a
/// register is written with.
pub open spec fn name_index(gpr: Gpr) -> int {
    if gpr.0 < 13 {
        gpr.0 as int
    } else {
        gpr.0 as int + 3
    }
}

/// The names of the registers are of the basic alphabet, hold no capital
/// letters and differ from each other.
proof fn lemma_register_names()
    ensures
        forall|i: int|
            0 <= i < gpr_names().len() ==> ascii_text((#[trigger] gpr_names()[i]).0)
                && no_capitals(gpr_names()[i].0),
        forall|i: int, j: int|
            0 <= i < j < gpr_names().len() ==> (#[trigger] gpr_names()[i]).0 != (
            #[trigger] gpr_names()[j]).0,
        forall|n: u8| n < 16 ==> (#[trigger] Gpr(n).spec_name()) == gpr_names()[name_index(Gpr(n))].0,
{
    reveal_strlit("r0");
    reveal_strlit("r1");
    reveal_strlit("r2");
    reveal_strlit("r3");
    reveal_strlit("r4");
    reveal_strlit("r5");
    reveal_strlit("r6");
    reveal_strlit("r7");
    reveal_strlit("r8");
    reveal_strlit("r9");
    reveal_strlit("r10");
    reveal_strlit("r11");
    reveal_strlit("r12");
    reveal_strlit("r13");
    reveal_strlit("r14");
    reveal_strlit("r15");
    reveal_strlit("sp");
    reveal_strlit("lr");
    reveal_strlit("pc");
    reveal_strlit("r");
    reveal_with_fuel(decimal, 3);
    let names = gpr_names();
    assert forall|i: int, j: int| 0 <= i < j < names.len() implies (#[trigger] names[i]).0 != (
    #[trigger] names[j]).0 by {
        let a = names[i].0;
        let b = names[j].0;
        if a.len() == b.len() {
            assert(a[0] != b[0] || a[1] != b[1] || (a.len() == 3 && a[2] != b[2]));
        }
    }
    assert forall|n: u8| n < 16 implies (#[trigger] Gpr(n).spec_name()) == names[name_index(
        Gpr(n),
    )].0 by {
        assert(Gpr(n).spec_name() =~= names[name_index(Gpr(n))].0);
    }
}

/// What is written for a register is read back as that register.
pub proof fn lemma_register_names_are_read_back(gpr: Gpr)
    requires
        gpr.0 < 16,
    ensures
        gpr_named(gpr.spec_name()) == Some(gpr),
{
    lemma_register_names();
    let names = gpr_names();
    let x = gpr.spec_name();
    let at = name_index(gpr);
    let flags = gpr_matches(x);
    assert(x == names[at].0);
    assert forall|j: int| 0 <= j < names.len() implies flags[j] == (j == at) by {
        lemma_same_without_capitals(x, names[j].0);
    }
    lemma_last_set_at(flags, at);
}

/// The names of `regs`, with a comma and a space between them.
pub open spec fn list_text(regs: Seq<Gpr>) -> Seq<char>
    decreases regs.len(),
{
    if regs.len() == 0 {
        Seq::empty()
    } else if regs.len() == 1 {
        regs[0].spec_name()
    } else {
        list_text(regs.drop_last()) + ", "@ + regs.last().spec_name()
    }
}

impl GprSet {
    /// The set as a register list, from the lowest register up.
    pub open spec fn text(self) -> Seq<char> {
        list_text(self.members())
    }

    /// Whether the set holds registers only: none of its elements is above
    /// 15.
    pub open spec fn in_range(self) -> bool {
        self.0 < 0x10000
    }

    /// Writes the set as a register list.
    pub fn to_string(&self) -> (r: String)
        requires
            self.in_range(),
        ensures
            r@ == self.text(),
    {
        let regs = self.iter();
        proof {
            super::inst::lemma_members(*self, 32);
            assert forall|k: int| 0 <= k < regs@.len() implies (#[trigger] regs@[k]).0 < 16 by {
                let r = regs@[k].0;
                assert(self@.contains(r));
                let bits = self.0;
                let r32 = r as u32;
                assert(r32 < 16) by (bit_vector)
                    requires
                        r32 < 32,
                        bits < 0x10000,
                        bits & (1u32 << r32) != 0,
                ;
            }
        }
        let mut s = String::new();
        let mut i: usize = 0;
        proof {
            assert(regs@.take(0) =~= Seq::<Gpr>::empty());
        }
        while i < regs.len()
            invariant
                i <= regs@.len(),
                forall|k: int| 0 <= k < regs@.len() ==> (#[trigger] regs@[k]).0 < 16,
                s@ == list_text(regs@.take(i as int)),
            decreases regs@.len() - i,
        {
            if i > 0 {
                s.append(", ");
            }
            let name = regs[i].to_string();
            s.append(name.as_str());
            proof {
                let next = regs@.take(i as int + 1);
                assert(next.drop_last() =~= regs@.take(i as int));
                assert(next.last() == regs@[i as int]);
                if i == 0 {
                    assert(s@ =~= regs@[0].spec_name());
                }
            }
            i += 1;
        }
        proof {
            assert(regs@.take(regs@.len() as int) =~= regs@);
        }
        s
    }
}

impl Cond {
    /// The suffix by which a mnemonic carries the condition; none for the
    /// condition that always holds.
    pub open spec fn spec_suffix(self) -> Seq<char> {
        match self {
            Cond::Equal => "eq"@,
            Cond::NotEqual => "ne"@,
            Cond::CarrySet => "cs"@,
            Cond::CarryClear => "cc"@,
            Cond::Minus => "mi"@,
            Cond::Plus => "pl"@,
            Cond::Overflow => "vs"@,
            Cond::NoOverflow => "vc"@,
            Cond::UnsignedGreaterThanOrEqual => "hi"@,
            Cond::UnsignedLessThan => "ls"@,
            Cond::SignedGreaterThanOrEqual => "ge"@,
            Cond::SignedLessThan => "lt"@,
            Cond::SignedGreaterThan => "gt"@,
            Cond::SignedLessThanOrEqual => "le"@,
            Cond::Always => ""@,
        }
    }

    /// The suffix by which a mnemonic carries the condition.
    pub fn suffix(&self) -> (r: &'static str)
        ensures
            r@ == self.spec_suffix(),
    {
        match self {
            Cond::Equal => "eq",
            Cond::NotEqual => "ne",
            Cond::CarrySet => "cs",
            Cond::CarryClear => "cc",
            Cond::Minus => "mi",
            Cond::Plus => "pl",
            Cond::Overflow => "vs",
            Cond::NoOverflow => "vc",
            Cond::UnsignedGreaterThanOrEqual => "hi",
            Cond::UnsignedLessThan => "ls",
            Cond::SignedGreaterThanOrEqual => "ge",
            Cond::SignedLessThan => "lt",
            Cond::SignedGreaterThan => "gt",
            Cond::SignedLessThanOrEqual => "le",
            Cond::Always => "",
        }
    }

    /// Writes the suffix by which a mnemonic carries the condition.
    pub fn to_string(&self) -> (r: String)
        ensures
            r@ == self.spec_suffix(),
    {
        self.suffix().to_owned()
    }
}

/// How a value stands in an instruction.
pub open spec fn value_text(v: Value<Seq<char>>) -> Seq<char> {
    match v {
        Value::Imm(x) => x,
        Value::Label(x) => x,
        Value::Gpr(r) => r.spec_name(),
    }
}

/// Whether a value can be written: a register has to be one.
pub open spec fn value_printable<T>(v: Value<T>) -> bool {
    v matches Value::Gpr(r) ==> r.0 < 16
}

/// Writes a value as it stands in an instruction.
pub fn value_to_string(v: &Value<String>) -> (r: String)
    requires
        value_printable(*v),
    ensures
        r@ == value_text(value_view(*v)),
{
    match v {
        Value::Imm(x) => x.clone(),
        Value::Label(x) => x.clone(),
        Value::Gpr(r) => r.to_string(),
    }
}

impl Disp {
    /// How the displacement stands in an instruction.
    pub open spec fn text(self) -> Seq<char> {
        match self {
            Disp::Imm(x) => "#"@ + signed_decimal(x as int),
            Disp::Gpr(r, shift) => if shift == 0 {
                r.spec_name()
            } else {
                r.spec_name() + ", lsl #"@ + decimal(shift as nat)
            },
        }
    }

    /// Whether the displacement can be written: a register has to be one.
    pub open spec fn printable(self) -> bool {
        self matches Disp::Gpr(r, _) ==> r.0 < 16
    }

    /// Writes the displacement as it stands in an instruction.
    pub fn to_string(&self) -> (r: String)
        requires
            self.printable(),
        ensures
            r@ == self.text(),
    {
        match self {
            Disp::Imm(x) => {
                let mut s = "#".to_owned();
                push_signed(&mut s, *x);
                s
            },
            Disp::Gpr(r, shift) => {
                let mut s = r.to_string();
                if *shift != 0 {
                    s.append(", lsl #");
                    push_decimal(&mut s, *shift as u64);
                }
                s
            },
        }
    }
}

/// The one register of a set that holds exactly one.
pub open spec fn single(set: GprSet) -> Option<Gpr> {
    if exists|i: u8| i < 32 && set@ == set![i] {
        Some(Gpr(choose|i: u8| i < 32 && set@ == set![i]))
    } else {
        None
    }
}

/// How a branch stands in an assembler file: `b`, then `l` for a branch
/// with link, `x` for one to a register, `ns` for a non-secure one, the
/// condition, and the target.
pub open spec fn branch_text(target: Value<Seq<char>>, link: bool, nonsecure: bool, cond: Cond) -> Seq<
    char,
> {
    "b"@ + (if link {
        "l"@
    } else {
        ""@
    }) + (if target is Gpr {
        "x"@
    } else {
        ""@
    }) + (if nonsecure {
        "ns"@
    } else {
        ""@
    }) + cond.spec_suffix() + " "@ + value_text(target)
}

/// The forms in which a load into registers can be written.
pub enum LoadForm {
    /// One register from a label.
    Literal,
    /// One register from an address.
    Plain,
    /// One register from an address with a displacement.
    Offset,
    /// One register, the displacement applied before and written back.
    PreIndexed,
    /// One register, the displacement applied after and written back.
    PostIndexed,
    /// Several registers, the address going down before each.
    MultipleDecrementBefore,
    /// Several registers, the address going up after each.
    MultipleIncrementAfter,
}

/// The form in which a load is written, if it can be written. A load from a
/// label is written only with no displacement and no write-back.
pub open spec fn load_form(
    address: Value<Seq<char>>,
    disp: Disp,
    write_back: Option<WriteBackMode>,
    to: Option<Gpr>,
) -> Option<LoadForm> {
    match (address, disp, write_back, to) {
        (Value::Label(_), disp, write_back, Some(_)) => if disp == Disp::Imm(0)
            && write_back is None {
            Some(LoadForm::Literal)
        } else {
            None
        },
        (_, Disp::Imm(x), None, Some(_)) => if x == 0 {
            Some(LoadForm::Plain)
        } else {
            Some(LoadForm::Offset)
        },
        (_, _, None, Some(_)) => Some(LoadForm::Offset),
        (_, Disp::Imm(_), Some(WriteBackMode::PreIndex), Some(_)) => Some(LoadForm::PreIndexed),
        (_, Disp::Imm(_), Some(WriteBackMode::PostIndex), Some(_)) => Some(LoadForm::PostIndexed),
        (_, Disp::Imm(x), Some(WriteBackMode::PreIndex), None) => if x == -4 {
            Some(LoadForm::MultipleDecrementBefore)
        } else {
            None
        },
        (_, Disp::Imm(x), Some(WriteBackMode::PostIndex), None) => if x == 4 {
            Some(LoadForm::MultipleIncrementAfter)
        } else {
            None
        },
        _ => None,
    }
}

/// How a load stands in an assembler file, in the given form.
pub open spec fn load_text(
    form: LoadForm,
    address: Value<Seq<char>>,
    disp: Disp,
    to: Gpr,
    set: GprSet,
    cond: Cond,
) -> Seq<char> {
    let ldr = "ldr"@ + cond.spec_suffix() + " "@ + to.spec_name() + ", "@;
    match form {
        LoadForm::Literal => ldr + value_text(address),
        LoadForm::Plain => ldr + "["@ + value_text(address) + "]"@,
        LoadForm::Offset => ldr + "["@ + value_text(address) + ", "@ + disp.text() + "]"@,
        LoadForm::PreIndexed => ldr + "["@ + value_text(address) + ", "@ + disp.text() + "]!"@,
        LoadForm::PostIndexed => ldr + "["@ + value_text(address) + "], "@ + disp.text(),
        LoadForm::MultipleDecrementBefore => "ldmdb"@ + cond.spec_suffix() + " "@ + value_text(
            address,
        ) + "!, {"@ + set.text() + "}"@,
        LoadForm::MultipleIncrementAfter => "ldmia"@ + cond.spec_suffix() + " "@ + value_text(
            address,
        ) + "!, {"@ + set.text() + "}"@,
    }
}

impl ArmDirectiveView {
    /// Whether the statement can be written: its registers have to be
    /// registers, and a load has to have one of the forms that can be
    /// written.
    pub open spec fn printable(self) -> bool {
        match self {
            ArmDirectiveView::Inst(inst) => match inst.kind {
                InstKind::Branch { target, .. } => value_printable(target),
                InstKind::LoadGpr { address, disp, write_back, set } => {
                    &&& value_printable(address)
                    &&& disp.printable()
                    &&& set.in_range()
                    &&& load_form(address, disp, write_back, single(set)) is Some
                },
            },
            ArmDirectiveView::Misc(_, _, _) => true,
        }
    }

    /// How the statement stands in an assembler file.
    pub open spec fn text(self) -> Seq<char> {
        match self {
            ArmDirectiveView::Inst(inst) => match inst.kind {
                InstKind::Branch { target, link, nonsecure } => branch_text(
                    target,
                    link,
                    nonsecure,
                    inst.cond,
                ),
                InstKind::LoadGpr { address, disp, write_back, set } => load_text(
                    load_form(address, disp, write_back, single(set))->0,
                    address,
                    disp,
                    single(set)->0,
                    set,
                    inst.cond,
                ),
            },
            ArmDirectiveView::Misc(kind, cond, rest) => kind.spec_as_str() + cond.spec_suffix()
                + " "@ + rest,
        }
    }
}

/// What is read can be written: a statement that the reader for the machine
/// yields has a textual form.
pub proof fn lemma_read_is_printable(matches: Seq<bool>, rest: Seq<crate::gasio::common::Ch>)
    ensures
        super::parse::arm_directive_matching(matches, rest) matches Ok(Some(d)) ==> d.printable(),
{
}

/// What `unique` yields is the one register of the set.
proof fn lemma_unique_is_single(set: GprSet, found: Option<Gpr>)
    requires
        match found {
            Some(gpr) => gpr.0 < 32 && set@ == set![gpr.0],
            None => forall|i: u8| set@ != set![i],
        },
    ensures
        found == single(set),
        set.in_range() ==> (found matches Some(gpr) ==> gpr.0 < 16),
{
    match found {
        Some(gpr) => {
            let i = choose|i: u8| i < 32 && set@ == set![i];
            assert(set![gpr.0].contains(gpr.0));
            assert(set![i].contains(gpr.0));
            if set.in_range() {
                let bits = set.0;
                let r32 = gpr.0 as u32;
                assert(set@.contains(gpr.0));
                assert(r32 < 16) by (bit_vector)
                    requires
                        r32 < 32,
                        bits < 0x10000,
                        bits & (1u32 << r32) != 0,
                ;
            }
        },
        None => {},
    }
}

/// Appends a text to a string and hands the string back.
fn with(s: String, part: &str) -> (r: String)
    ensures
        r@ == s@ + part@,
{
    let mut s = s;
    s.append(part);
    s
}

/// Appends a text to a string if a condition holds.
fn with_if(s: String, cond: bool, part: &str) -> (r: String)
    ensures
        r@ == s@ + (if cond {
            part@
        } else {
            ""@
        }),
{
    let mut s = s;
    if cond {
        s.append(part);
    } else {
        proof {
            reveal_strlit("");
            assert(s@ + ""@ =~= s@);
        }
    }
    s
}

impl ArmDirective {
    /// Decides whether the statement can be written.
    pub fn is_printable(&self) -> (r: bool)
        ensures
            r == self@.printable(),
    {
        match self {
            ArmDirective::Inst(inst) => match &inst.kind {
                InstKind::Branch { target, link, nonsecure } => match target {
                    Value::Gpr(r) => r.0 < 16,
                    _ => true,
                },
                InstKind::LoadGpr { address, disp, write_back, set } => {
                    let address_ok = match address {
                        Value::Gpr(r) => r.0 < 16,
                        _ => true,
                    };
                    let disp_ok = match disp {
                        Disp::Gpr(r, _) => r.0 < 16,
                        _ => true,
                    };
                    let to = set.unique();
                    proof {
                        lemma_unique_is_single(*set, to);
                    }
                    let form_ok = match (address, disp, write_back, to) {
                        (Value::Label(_), disp, write_back, Some(_)) => match (disp, write_back) {
                            (Disp::Imm(x), None) => *x == 0,
                            _ => false,
                        },
                        (_, _, None, Some(_)) => true,
                        (_, Disp::Imm(_), Some(_), Some(_)) => true,
                        (_, Disp::Imm(x), Some(WriteBackMode::PreIndex), None) => *x == -4,
                        (_, Disp::Imm(x), Some(WriteBackMode::PostIndex), None) => *x == 4,
                        _ => false,
                    };
                    address_ok && disp_ok && set.0 < 0x10000 && form_ok
                },
            },
            ArmDirective::Misc(_, _, _) => true,
        }
    }

    /// Writes the statement as it stands in an assembler file.
    pub fn to_string(&self) -> (r: String)
        requires
            self@.printable(),
        ensures
            r@ == self@.text(),
    {
        match self {
            ArmDirective::Inst(inst) => match &inst.kind {
                InstKind::Branch { target, link, nonsecure } => {
                    let is_gpr = match target {
                        Value::Gpr(_) => true,
                        _ => false,
                    };
                    let s = "b".to_owned();
                    let s = with_if(s, *link, "l");
                    let s = with_if(s, is_gpr, "x");
                    let s = with_if(s, *nonsecure, "ns");
                    let s = with(s, inst.cond.suffix());
                    let s = with(s, " ");
                    with(s, value_to_string(target).as_str())
                },
                InstKind::LoadGpr { address, disp, write_back, set } => {
                    let to = set.unique();
                    proof {
                        lemma_unique_is_single(*set, to);
                    }
                    let address_text = value_to_string(address);
                    match to {
                        Some(to) => {
                            let s = "ldr".to_owned();
                            let s = with(s, inst.cond.suffix());
                            let s = with(s, " ");
                            let s = with(s, to.to_string().as_str());
                            let s = with(s, ", ");
                            match (address, disp, write_back) {
                                (Value::Label(_), _, _) => with(s, address_text.as_str()),
                                (_, Disp::Imm(0), None) => {
                                    let s = with(s, "[");
                                    let s = with(s, address_text.as_str());
                                    with(s, "]")
                                },
                                (_, _, None) => {
                                    let s = with(s, "[");
                                    let s = with(s, address_text.as_str());
                                    let s = with(s, ", ");
                                    let s = with(s, disp.to_string().as_str());
                                    with(s, "]")
                                },
                                (_, _, Some(WriteBackMode::PreIndex)) => {
                                    let s = with(s, "[");
                                    let s = with(s, address_text.as_str());
                                    let s = with(s, ", ");
                                    let s = with(s, disp.to_string().as_str());
                                    with(s, "]!")
                                },
                                (_, _, Some(WriteBackMode::PostIndex)) => {
                                    let s = with(s, "[");
                                    let s = with(s, address_text.as_str());
                                    let s = with(s, "], ");
                                    with(s, disp.to_string().as_str())
                                },
                            }
                        },
                        None => {
                            let s = match write_back {
                                Some(WriteBackMode::PreIndex) => "ldmdb".to_owned(),
                                _ => "ldmia".to_owned(),
                            };
                            let s = with(s, inst.cond.suffix());
                            let s = with(s, " ");
                            let s = with(s, address_text.as_str());
                            let s = with(s, "!, {");
                            let s = with(s, set.to_string().as_str());
                            with(s, "}")
                        },
                    }
                },
            },
            ArmDirective::Misc(kind, cond, rest) => {
                let s = kind.as_str().to_owned();
                let s = with(s, cond.suffix());
                let s = with(s, " ");
                with(s, rest.as_str())
            },
        }
    }
}

} // verus!
