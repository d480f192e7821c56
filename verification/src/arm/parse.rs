//! A reader for Arm instructions, as far as they are of interest.

use vstd::prelude::*;
use vstd::string::*;

use super::inst::{Cond, Gpr, Inst, InstKind, Value};
use crate::gasio::common::{
    classified_text, classify_text, expect_char, letters, map_iresult, outcome_of, run_end,
    separated, skip_run, spec_char, spec_separated, spec_take_while1, take_while1, text_between,
    Ch, CharClass, ErrorKind, Parsed, Step,
};

verus! {

/// Whether the `unicase` crate takes two texts for equal of which at least
/// one goes beyond the basic alphabet: whether they are the same once the
/// case of their letters is folded as Unicode lays down.
pub uninterp spec fn caseless_eq(a: Seq<char>, b: Seq<char>) -> bool;

/// Whether a text stays within the basic alphabet.
pub open spec fn ascii_text(s: Seq<char>) -> bool {
    forall|i: int| 0 <= i < s.len() ==> (#[trigger] s[i]) <= '\x7f'
}

/// The small letter for a capital letter of the basic alphabet; every other
/// character as it is.
pub open spec fn ascii_lower(c: char) -> char {
    if 'A' <= c && c <= 'Z' {
        ((c as u32) + 32) as char
    } else {
        c
    }
}

/// Whether two texts are the same but for the case of the letters of the
/// basic alphabet.
pub open spec fn ascii_caseless_eq(a: Seq<char>, b: Seq<char>) -> bool {
    &&& a.len() == b.len()
    &&& forall|i: int| 0 <= i < a.len() ==> ascii_lower(#[trigger] a[i]) == ascii_lower(b[i])
}

/// Whether two texts are equal without regard to case. For texts of the
/// basic alphabet that is a matter of their letters alone.
pub open spec fn same_ignoring_case(a: Seq<char>, b: Seq<char>) -> bool {
    if ascii_text(a) && ascii_text(b) {
        ascii_caseless_eq(a, b)
    } else {
        caseless_eq(a, b)
    }
}

/// `unicase::eq`: compares two texts without regard to case. Texts of the
/// basic alphabet are compared letter by letter, with capital letters taken
/// for small ones; anything else is compared by Unicode's case folding.
#[verifier::external_body]
fn eq_ignoring_case(a: &str, b: &str) -> (r: bool)
    ensures
        r == same_ignoring_case(a@, b@),
        ascii_text(a@) && ascii_text(b@) ==> r == ascii_caseless_eq(a@, b@),
        !(ascii_text(a@) && ascii_text(b@)) ==> r == caseless_eq(a@, b@),
{
    unicase::eq(a, b)
}

/// The position of the last flag that is set.
pub open spec fn last_set(flags: Seq<bool>) -> Option<int>
    decreases flags.len(),
{
    if flags.len() == 0 {
        None
    } else if flags.last() {
        Some(flags.len() - 1)
    } else {
        last_set(flags.drop_last())
    }
}

/// Finds the last flag that is set.
pub fn find_last_set(flags: &[bool]) -> (r: Option<usize>)
    ensures
        match r {
            Some(i) => last_set(flags@) == Some(i as int) && i < flags@.len(),
            None => last_set(flags@) is None,
        },
{
    let mut n = flags.len();
    proof {
        assert(flags@.take(n as int) =~= flags@);
    }
    while n > 0
        invariant
            n <= flags@.len(),
            last_set(flags@.take(n as int)) == last_set(flags@),
        decreases n,
    {
        proof {
            assert(flags@.take(n as int).drop_last() =~= flags@.take(n as int - 1));
            assert(flags@.take(n as int).last() == flags@[n as int - 1]);
        }
        if flags[n - 1] {
            return Some(n - 1);
        }
        n -= 1;
    }
    None
}

/// The last flag that is set is the one behind which none is set.
pub proof fn lemma_last_set_at(flags: Seq<bool>, i: int)
    requires
        0 <= i < flags.len(),
        flags[i],
        forall|j: int| i < j < flags.len() ==> !flags[j],
    ensures
        last_set(flags) == Some(i),
    decreases flags.len(),
{
    if i < flags.len() - 1 {
        lemma_last_set_at(flags.drop_last(), i);
    }
}

/// Whether a text holds no capital letter of the basic alphabet.
pub open spec fn no_capitals(s: Seq<char>) -> bool {
    forall|i: int| 0 <= i < s.len() ==> !('A' <= (#[trigger] s[i]) && s[i] <= 'Z')
}

/// Texts of the basic alphabet without capital letters are equal without
/// regard to case only if they are equal.
pub proof fn lemma_same_without_capitals(a: Seq<char>, b: Seq<char>)
    requires
        ascii_text(a),
        ascii_text(b),
        no_capitals(a),
        no_capitals(b),
    ensures
        same_ignoring_case(a, b) == (a == b),
{
    if same_ignoring_case(a, b) {
        assert forall|i: int| 0 <= i < a.len() implies a[i] == b[i] by {
            assert(ascii_lower(a[i]) == ascii_lower(b[i]));
        }
        assert(a =~= b);
    }
}

/// The names of the registers, with the number of the register that each
/// stands for.
pub open spec fn gpr_names() -> Seq<(Seq<char>, u8)> {
    seq![
        ("r0"@, 0u8),
        ("r1"@, 1u8),
        ("r2"@, 2u8),
        ("r3"@, 3u8),
        ("r4"@, 4u8),
        ("r5"@, 5u8),
        ("r6"@, 6u8),
        ("r7"@, 7u8),
        ("r8"@, 8u8),
        ("r9"@, 9u8),
        ("r10"@, 10u8),
        ("r11"@, 11u8),
        ("r12"@, 12u8),
        ("r13"@, 13u8),
        ("r14"@, 14u8),
        ("r15"@, 15u8),
        ("sp"@, 13u8),
        ("lr"@, 14u8),
        ("pc"@, 15u8),
    ]
}

/// For each name of a register, whether `x` is equal to it without regard
/// to case.
pub open spec fn gpr_matches(x: Seq<char>) -> Seq<bool> {
    Seq::new(gpr_names().len(), |i: int| same_ignoring_case(x, gpr_names()[i].0))
}

/// The register that a text names, given which of the names it is equal
/// to: that of the last such name.
pub open spec fn gpr_matching(matches: Seq<bool>) -> Option<Gpr> {
    match last_set(matches) {
        Some(i) => if i < gpr_names().len() {
            Some(Gpr(gpr_names()[i].1))
        } else {
            None
        },
        None => None,
    }
}

/// The register that `x` names, without regard to case.
pub open spec fn gpr_named(x: Seq<char>) -> Option<Gpr> {
    gpr_matching(gpr_matches(x))
}

/// The view of a name with the number of its register.
spec fn name_view(entry: (&'static str, u8)) -> (Seq<char>, u8) {
    (entry.0@, entry.1)
}

/// The names of the registers.
fn gpr_table() -> (r: Vec<(&'static str, u8)>)
    ensures
        r@.map_values(|e: (&'static str, u8)| name_view(e)) == gpr_names(),
        r@.len() == gpr_names().len(),
{
    let mut t: Vec<(&'static str, u8)> = Vec::new();
    t.push(("r0", 0));
    t.push(("r1", 1));
    t.push(("r2", 2));
    t.push(("r3", 3));
    t.push(("r4", 4));
    t.push(("r5", 5));
    t.push(("r6", 6));
    t.push(("r7", 7));
    t.push(("r8", 8));
    t.push(("r9", 9));
    t.push(("r10", 10));
    t.push(("r11", 11));
    t.push(("r12", 12));
    t.push(("r13", 13));
    t.push(("r14", 14));
    t.push(("r15", 15));
    t.push(("sp", 13));
    t.push(("lr", 14));
    t.push(("pc", 15));
    assert(t@.map_values(|e: (&'static str, u8)| name_view(e)) =~= gpr_names());
    t
}

impl Gpr {
    /// The register that a text names, given for each name of a register,
    /// in the order `r0` to `r15`, `sp`, `lr`, `pc`, whether the text is
    /// equal to it.
    pub fn from_matches(matches: &[bool]) -> (r: Option<Gpr>)
        ensures
            r == gpr_matching(matches@),
    {
        let table = gpr_table();
        let ghost names = table@.map_values(|e: (&'static str, u8)| name_view(e));
        match find_last_set(matches) {
            Some(i) => if i < table.len() {
                proof {
                    assert(names[i as int] == name_view(table@[i as int]));
                }
                Some(Gpr(table[i].1))
            } else {
                None
            },
            None => None,
        }
    }

    /// The register that `x` names, without regard to case: `r0` to `r15`,
    /// and `sp`, `lr` and `pc` for the last three.
    pub fn from_str(x: &str) -> (r: Option<Gpr>)
        ensures
            r == gpr_named(x@),
    {
        let table = gpr_table();
        let ghost names = table@.map_values(|e: (&'static str, u8)| name_view(e));
        let mut matches: Vec<bool> = Vec::new();
        let mut i: usize = 0;
        while i < table.len()
            invariant
                i <= table@.len(),
                names == gpr_names(),
                names == table@.map_values(|e: (&'static str, u8)| name_view(e)),
                matches@.len() == i,
                forall|k: int|
                    0 <= k < i ==> matches@[k] == same_ignoring_case(x@, gpr_names()[k].0),
            decreases table@.len() - i,
        {
            proof {
                assert(names[i as int] == name_view(table@[i as int]));
            }
            matches.push(eq_ignoring_case(x, table[i].0));
            i += 1;
        }
        proof {
            assert(matches@ =~= gpr_matches(x@));
        }
        Gpr::from_matches(matches.as_slice())
    }
}

/// An instruction or a directive of the machine.
#[derive(Debug, PartialEq, Eq, Clone, Hash)]
pub enum ArmDirective {
    /// An instruction that is recognised.
    Inst(Inst<String>),
    /// A directive that is of no interest, or is not supported: its kind,
    /// its condition and the rest of the statement.
    Misc(ArmMiscDirective, Cond, String),
}

/// An instruction or a directive of the machine, as plain data.
pub enum ArmDirectiveView {
    Inst(Inst<Seq<char>>),
    Misc(ArmMiscDirective, Cond, Seq<char>),
}

/// The instructions that are known by name only.
#[derive(Debug, PartialEq, Eq, Structural, Clone, Copy, Hash)]
pub enum ArmMiscDirective {
    Adc,
}

/// A value as plain data.
pub open spec fn value_view(v: Value<String>) -> Value<Seq<char>> {
    match v {
        Value::Imm(x) => Value::Imm(x@),
        Value::Label(x) => Value::Label(x@),
        Value::Gpr(r) => Value::Gpr(r),
    }
}

/// An instruction as plain data.
pub open spec fn inst_view(inst: Inst<String>) -> Inst<Seq<char>> {
    Inst {
        kind: match inst.kind {
            InstKind::Branch { target, link, nonsecure } => InstKind::Branch {
                target: value_view(target),
                link,
                nonsecure,
            },
            InstKind::LoadGpr { address, disp, write_back, set } => InstKind::LoadGpr {
                address: value_view(address),
                disp,
                write_back,
                set,
            },
        },
        cond: inst.cond,
    }
}

impl View for ArmDirective {
    type V = ArmDirectiveView;

    open spec fn view(&self) -> ArmDirectiveView {
        match self {
            ArmDirective::Inst(inst) => ArmDirectiveView::Inst(inst_view(*inst)),
            ArmDirective::Misc(kind, cond, rest) => ArmDirectiveView::Misc(*kind, *cond, rest@),
        }
    }
}

/// How the statements that start with some mnemonic are read.
#[derive(Debug, PartialEq, Eq, Structural, Clone, Copy)]
pub enum Handler {
    /// An instruction that is known by name only; the flag says whether it
    /// takes a condition.
    Misc(ArmMiscDirective, bool),
    /// A branch to a label, with link if the flag is set.
    BranchLabel(bool),
}

impl ArmMiscDirective {
    /// The mnemonic.
    pub open spec fn spec_as_str(self) -> Seq<char> {
        match self {
            ArmMiscDirective::Adc => "adc"@,
        }
    }
}

impl Handler {
    /// The mnemonic without a condition.
    pub open spec fn spec_key(self) -> Seq<char> {
        match self {
            Handler::Misc(kind, _) => kind.spec_as_str(),
            Handler::BranchLabel(link) => if link {
                "bl"@
            } else {
                "b"@
            },
        }
    }

    /// The mnemonic without a condition.
    pub fn key(self) -> (r: &'static str)
        ensures
            r@ == self.spec_key(),
    {
        match self {
            Handler::Misc(kind, _) => kind.as_str(),
            Handler::BranchLabel(link) => if link {
                "bl"
            } else {
                "b"
            },
        }
    }

    /// Whether the mnemonic can carry a condition.
    pub open spec fn spec_accepts_cond(self) -> bool {
        match self {
            Handler::Misc(_, accepts) => accepts,
            Handler::BranchLabel(_) => true,
        }
    }

    /// Whether the mnemonic can carry a condition.
    pub fn accepts_cond(self) -> (r: bool)
        ensures
            r == self.spec_accepts_cond(),
    {
        match self {
            Handler::Misc(_, accepts) => accepts,
            Handler::BranchLabel(_) => true,
        }
    }

    /// What the statement is, given the rest of it and the condition that
    /// its mnemonic carries. A branch takes the symbol at the start of the
    /// rest for its label; white space around the symbol is skipped, and
    /// what follows is not looked at.
    pub open spec fn spec_parse(self, rest: Seq<Ch>, cond: Cond) -> Result<
        ArmDirectiveView,
        Seq<char>,
    > {
        match self {
            Handler::Misc(kind, _) => Ok(ArmDirectiveView::Misc(kind, cond, letters(rest))),
            Handler::BranchLabel(link) => match outcome_of(spec_arm_symbol(rest, 0)) {
                Ok(label) => Ok(
                    ArmDirectiveView::Inst(
                        Inst {
                            kind: InstKind::Branch {
                                target: Value::Label(label),
                                link,
                                nonsecure: false,
                            },
                            cond,
                        },
                    ),
                ),
                Err(message) => Err(message),
            },
        }
    }

    /// Reads the statement, given the rest of it and the condition that its
    /// mnemonic carries.
    pub fn parse(self, rest: &[Ch], cond: Cond) -> (r: Result<ArmDirective, String>)
        ensures
            arm_result_view(r) == self.spec_parse(rest@, cond),
    {
        match self {
            Handler::Misc(kind, _) => {
                proof {
                    assert(rest@.subrange(0, rest@.len() as int) =~= rest@);
                }
                Ok(ArmDirective::Misc(kind, cond, text_between(rest, 0, rest.len())))
            },
            Handler::BranchLabel(link) => {
                match map_iresult(arm_symbol(rest, 0)) {
                    Ok(label) => Ok(
                        ArmDirective::Inst(
                            Inst {
                                kind: InstKind::Branch {
                                    target: Value::Label(label),
                                    link,
                                    nonsecure: false,
                                },
                                cond,
                            },
                        ),
                    ),
                    Err(message) => Err(message),
                }
            },
        }
    }
}

/// A result of reading a statement, as plain data.
pub open spec fn arm_result_view(r: Result<ArmDirective, String>) -> Result<
    ArmDirectiveView,
    Seq<char>,
> {
    match r {
        Ok(d) => Ok(d@),
        Err(message) => Err(message@),
    }
}

/// Reading a symbol, with white space skipped before and after it.
pub open spec fn spec_arm_symbol(s: Seq<Ch>, at: int) -> Step<Seq<char>> {
    spec_separated(s, at, CharClass::Space, CharClass::Symbol)
}

/// Reads a symbol, skipping white space before and after it.
pub fn arm_symbol(input: &[Ch], at: usize) -> (r: Parsed<String>)
    requires
        at <= input@.len(),
    ensures
        r@ == spec_arm_symbol(input@, at as int),
        r matches Parsed::Done { rest, .. } ==> at < rest <= input@.len(),
{
    separated(input, at, CharClass::Space, CharClass::Symbol)
}

/// The readers of statements, in the order in which they are tried.
pub open spec fn handlers() -> Seq<Handler> {
    seq![
        Handler::Misc(ArmMiscDirective::Adc, true),
        Handler::BranchLabel(false),
        Handler::BranchLabel(true),
    ]
}

/// The suffixes by which a mnemonic carries a condition, with the
/// condition that each stands for; no suffix stands for no condition.
pub open spec fn cond_suffixes() -> Seq<(Cond, Seq<char>)> {
    seq![
        (Cond::Equal, "eq"@),
        (Cond::NotEqual, "ne"@),
        (Cond::CarrySet, "cs"@),
        (Cond::CarryClear, "cc"@),
        (Cond::Minus, "mi"@),
        (Cond::Plus, "pl"@),
        (Cond::Overflow, "vs"@),
        (Cond::NoOverflow, "vc"@),
        (Cond::UnsignedGreaterThanOrEqual, "hi"@),
        (Cond::UnsignedLessThan, "ls"@),
        (Cond::SignedGreaterThanOrEqual, "ge"@),
        (Cond::SignedLessThan, "lt"@),
        (Cond::SignedGreaterThan, "gt"@),
        (Cond::SignedLessThanOrEqual, "le"@),
        (Cond::CarrySet, "hs"@),
        (Cond::CarryClear, "lo"@),
        (Cond::Always, "al"@),
        (Cond::Always, ""@),
    ]
}

/// The suffixes that a reader's mnemonic can carry.
pub open spec fn suffixes_of(handler: Handler) -> Seq<(Cond, Seq<char>)> {
    if handler.spec_accepts_cond() {
        cond_suffixes()
    } else {
        seq![(Cond::Always, ""@)]
    }
}

/// A mnemonic with a condition, as it stands at the start of a statement,
/// with the reader for such statements and the condition.
pub struct Mnemonic {
    pub handler: Handler,
    pub cond: Cond,
    pub name: Seq<char>,
}

/// The mnemonics of a reader: one for each suffix that it can carry.
pub open spec fn mnemonics_of(handler: Handler) -> Seq<Mnemonic> {
    suffixes_of(handler).map_values(
        |e: (Cond, Seq<char>)| Mnemonic { handler, cond: e.0, name: handler.spec_key() + e.1 },
    )
}

/// The mnemonics of the first `n` readers.
pub open spec fn mnemonics_among(n: int) -> Seq<Mnemonic>
    decreases n,
{
    if n <= 0 || n > handlers().len() {
        Seq::empty()
    } else {
        mnemonics_among(n - 1) + mnemonics_of(handlers()[n - 1])
    }
}

/// All mnemonics, reader by reader.
pub open spec fn mnemonics() -> Seq<Mnemonic> {
    mnemonics_among(handlers().len() as int)
}

/// For each mnemonic, whether `key` is equal to it without regard to case.
pub open spec fn mnemonic_matches(key: Seq<char>) -> Seq<bool> {
    Seq::new(mnemonics().len(), |i: int| same_ignoring_case(key, mnemonics()[i].name))
}

/// The reader for a statement and the condition that its key carries, given
/// which of the mnemonics the key is equal to: those of the last such
/// mnemonic.
pub open spec fn handler_matching(matches: Seq<bool>) -> Option<(Handler, Cond)> {
    match last_set(matches) {
        Some(i) => if i < mnemonics().len() {
            Some((mnemonics()[i].handler, mnemonics()[i].cond))
        } else {
            None
        },
        None => None,
    }
}

/// What a statement is to the machine, given which of the mnemonics its key
/// is equal to, and the rest of it: nothing where the key is equal to none.
pub open spec fn arm_directive_matching(matches: Seq<bool>, rest: Seq<Ch>) -> Result<
    Option<ArmDirectiveView>,
    Seq<char>,
> {
    match handler_matching(matches) {
        Some((handler, cond)) => match handler.spec_parse(rest, cond) {
            Ok(d) => Ok(Some(d)),
            Err(message) => Err(message),
        },
        None => Ok(None),
    }
}

/// What the statement with the key `key` and the rest `rest` is to the
/// machine: nothing where no reader knows the key.
pub open spec fn arm_directive_of(key: Seq<char>, rest: Seq<char>) -> Result<
    Option<ArmDirectiveView>,
    Seq<char>,
> {
    arm_directive_matching(mnemonic_matches(key), classified_text(rest))
}

/// A result of `ArmDirective::from_str` as plain data.
pub open spec fn arm_option_view(r: Result<Option<ArmDirective>, String>) -> Result<
    Option<ArmDirectiveView>,
    Seq<char>,
> {
    match r {
        Ok(Some(d)) => Ok(Some(d@)),
        Ok(None) => Ok(None),
        Err(message) => Err(message@),
    }
}

/// The view of a suffix with its condition.
spec fn suffix_view(entry: (Cond, &'static str)) -> (Cond, Seq<char>) {
    (entry.0, entry.1@)
}

/// The suffixes that the mnemonic of `handler` can carry.
fn suffix_table(handler: Handler) -> (r: Vec<(Cond, &'static str)>)
    ensures
        r@.map_values(|e: (Cond, &'static str)| suffix_view(e)) == suffixes_of(handler),
{
    let mut t: Vec<(Cond, &'static str)> = Vec::new();
    if handler.accepts_cond() {
        t.push((Cond::Equal, "eq"));
        t.push((Cond::NotEqual, "ne"));
        t.push((Cond::CarrySet, "cs"));
        t.push((Cond::CarryClear, "cc"));
        t.push((Cond::Minus, "mi"));
        t.push((Cond::Plus, "pl"));
        t.push((Cond::Overflow, "vs"));
        t.push((Cond::NoOverflow, "vc"));
        t.push((Cond::UnsignedGreaterThanOrEqual, "hi"));
        t.push((Cond::UnsignedLessThan, "ls"));
        t.push((Cond::SignedGreaterThanOrEqual, "ge"));
        t.push((Cond::SignedLessThan, "lt"));
        t.push((Cond::SignedGreaterThan, "gt"));
        t.push((Cond::SignedLessThanOrEqual, "le"));
        t.push((Cond::CarrySet, "hs"));
        t.push((Cond::CarryClear, "lo"));
        t.push((Cond::Always, "al"));
        t.push((Cond::Always, ""));
    } else {
        t.push((Cond::Always, ""));
    }
    assert(t@.map_values(|e: (Cond, &'static str)| suffix_view(e)) =~= suffixes_of(handler));
    t
}

/// A mnemonic as the library holds it.
struct Entry {
    handler: Handler,
    cond: Cond,
    name: String,
}

/// An entry as plain data.
spec fn mnemonic_of(entry: Entry) -> Mnemonic {
    Mnemonic { handler: entry.handler, cond: entry.cond, name: entry.name@ }
}

/// Entries as plain data.
spec fn mnemonics_in(entries: Seq<Entry>) -> Seq<Mnemonic> {
    entries.map_values(|e: Entry| mnemonic_of(e))
}

/// The readers of statements.
fn handler_table() -> (r: Vec<Handler>)
    ensures
        r@ == handlers(),
{
    let mut t: Vec<Handler> = Vec::new();
    t.push(Handler::Misc(ArmMiscDirective::Adc, true));
    t.push(Handler::BranchLabel(false));
    t.push(Handler::BranchLabel(true));
    assert(t@ =~= handlers());
    t
}

/// All mnemonics, reader by reader.
fn mnemonic_table() -> (r: Vec<Entry>)
    ensures
        mnemonics_in(r@) == mnemonics(),
{
    let readers = handler_table();
    let mut table: Vec<Entry> = Vec::new();
    let mut n: usize = 0;
    proof {
        assert(mnemonics_in(table@) =~= mnemonics_among(0));
    }
    while n < readers.len()
        invariant
            n <= readers@.len(),
            readers@ == handlers(),
            mnemonics_in(table@) == mnemonics_among(n as int),
        decreases readers@.len() - n,
    {
        let handler = readers[n];
        let suffixes = suffix_table(handler);
        let ghost views = suffixes@.map_values(|e: (Cond, &'static str)| suffix_view(e));
        let ghost before = mnemonics_in(table@);
        let mut k: usize = 0;
        proof {
            assert(mnemonics_of(handler).take(0) =~= Seq::<Mnemonic>::empty());
            assert(before + Seq::<Mnemonic>::empty() =~= before);
        }
        while k < suffixes.len()
            invariant
                k <= suffixes@.len(),
                views == suffixes_of(handler),
                views == suffixes@.map_values(|e: (Cond, &'static str)| suffix_view(e)),
                mnemonics_in(table@) == before + mnemonics_of(handler).take(k as int),
            decreases suffixes@.len() - k,
        {
            let (cond, suffix) = suffixes[k];
            let mut name = handler.key().to_owned();
            name.append(suffix);
            let entry = Entry { handler, cond, name };
            let ghost so_far = mnemonics_in(table@);
            table.push(entry);
            proof {
                assert(views[k as int] == suffix_view(suffixes@[k as int]));
                assert(mnemonics_in(table@) =~= so_far.push(mnemonic_of(entry)));
                assert(mnemonics_of(handler).take(k as int + 1) =~= mnemonics_of(handler).take(
                    k as int,
                ).push(mnemonics_of(handler)[k as int]));
                assert(mnemonics_in(table@) =~= before + mnemonics_of(handler).take(k as int + 1));
            }
            k += 1;
        }
        proof {
            assert(mnemonics_of(handler).take(suffixes@.len() as int) =~= mnemonics_of(handler));
        }
        n += 1;
    }
    table
}

impl ArmDirective {
    /// Reads a statement as one of the machine, given for each mnemonic, in
    /// the order of the readers and of their suffixes, whether the key of the
    /// statement is equal to it, and the rest of the statement.
    pub fn from_matches(matches: &[bool], rest: &[Ch]) -> (r: Result<
        Option<ArmDirective>,
        String,
    >)
        ensures
            arm_option_view(r) == arm_directive_matching(matches@, rest@),
    {
        let table = mnemonic_table();
        match find_last_set(matches) {
            Some(i) => if i < table.len() {
                proof {
                    assert(mnemonics_in(table@)[i as int] == mnemonic_of(table@[i as int]));
                }
                match table[i].handler.parse(rest, table[i].cond) {
                    Ok(d) => Ok(Some(d)),
                    Err(message) => Err(message),
                }
            } else {
                Ok(None)
            },
            None => Ok(None),
        }
    }

    /// Reads the statement with the key `key` and the rest `rest` as one of
    /// the machine. The key is a mnemonic that may carry a condition, in
    /// letters of either case. A key that no reader knows yields `None`.
    pub fn from_str(key: &str, rest: &str) -> (r: Result<Option<ArmDirective>, String>)
        ensures
            arm_option_view(r) == arm_directive_of(key@, rest@),
    {
        let table = mnemonic_table();
        let mut matches: Vec<bool> = Vec::new();
        let mut i: usize = 0;
        while i < table.len()
            invariant
                i <= table@.len(),
                mnemonics_in(table@) == mnemonics(),
                matches@.len() == i,
                forall|k: int|
                    0 <= k < i ==> matches@[k] == same_ignoring_case(key@, mnemonics()[k].name),
            decreases table@.len() - i,
        {
            proof {
                assert(mnemonics_in(table@)[i as int] == mnemonic_of(table@[i as int]));
            }
            matches.push(eq_ignoring_case(key, table[i].name.as_str()));
            i += 1;
        }
        proof {
            assert(matches@ =~= mnemonic_matches(key@));
        }
        let rest = classify_text(rest);
        ArmDirective::from_matches(matches.as_slice(), rest.as_slice())
    }
}

/// Reading a constant: a `#` and a run of digits and minus signs.
pub open spec fn spec_imm(s: Seq<Ch>, at: int) -> Step<Seq<char>> {
    match spec_char(s, at, '#') {
        Step::Done { rest, .. } => spec_take_while1(s, rest, CharClass::Imm),
        Step::Incomplete => Step::Incomplete,
        Step::Error(kind) => Step::Error(kind),
    }
}

/// Reads a constant.
pub fn imm(input: &[Ch], at: usize) -> (r: Parsed<String>)
    requires
        at <= input@.len(),
    ensures
        r@ == spec_imm(input@, at as int),
        r matches Parsed::Done { rest, .. } ==> at < rest <= input@.len(),
{
    match expect_char(input, at, '#') {
        Parsed::Done { rest, .. } => take_while1(input, rest, CharClass::Imm),
        Parsed::Incomplete => Parsed::Incomplete,
        Parsed::Error(kind) => Parsed::Error(kind),
    }
}

/// Reading a register: a symbol, with white space skipped around it, that
/// names one.
pub open spec fn spec_gpr(s: Seq<Ch>, at: int) -> Step<Gpr> {
    match spec_arm_symbol(s, at) {
        Step::Done { rest, value } => match gpr_named(value) {
            Some(gpr) => Step::Done { rest, value: gpr },
            None => Step::Error(ErrorKind::MapOpt),
        },
        Step::Incomplete => Step::Incomplete,
        Step::Error(kind) => Step::Error(kind),
    }
}

/// A result of reading a register, as plain data.
pub open spec fn gpr_step(r: Parsed<Gpr>) -> Step<Gpr> {
    match r {
        Parsed::Done { rest, value } => Step::Done { rest: rest as int, value },
        Parsed::Incomplete => Step::Incomplete,
        Parsed::Error(kind) => Step::Error(kind),
    }
}

/// Reads a register.
pub fn gpr(input: &[Ch], at: usize) -> (r: Parsed<Gpr>)
    requires
        at <= input@.len(),
    ensures
        gpr_step(r) == spec_gpr(input@, at as int),
        r matches Parsed::Done { rest, .. } ==> at < rest <= input@.len(),
{
    match arm_symbol(input, at) {
        Parsed::Done { rest, value } => match Gpr::from_str(value.as_str()) {
            Some(gpr) => Parsed::Done { rest, value: gpr },
            None => Parsed::Error(ErrorKind::MapOpt),
        },
        Parsed::Incomplete => Parsed::Incomplete,
        Parsed::Error(kind) => Parsed::Error(kind),
    }
}

/// Reading a constant or a register, with white space skipped around it:
/// a constant where there is one, else a register; a reader that wants more
/// input counts as one that gave up.
pub open spec fn spec_value_imm_or_gpr(s: Seq<Ch>, at: int) -> Step<Value<Seq<char>>> {
    let start = run_end(s, at, CharClass::Space);
    match spec_imm(s, start) {
        Step::Done { rest, value } => Step::Done {
            rest: run_end(s, rest, CharClass::Space),
            value: Value::Imm(value),
        },
        _ => match spec_gpr(s, start) {
            Step::Done { rest, value } => Step::Done { rest, value: Value::Gpr(value) },
            _ => Step::Error(ErrorKind::Alt),
        },
    }
}

/// A result of reading a value, as plain data.
pub open spec fn value_step(r: Parsed<Value<String>>) -> Step<Value<Seq<char>>> {
    match r {
        Parsed::Done { rest, value } => Step::Done { rest: rest as int, value: value_view(value) },
        Parsed::Incomplete => Step::Incomplete,
        Parsed::Error(kind) => Step::Error(kind),
    }
}

/// Reads a constant or a register.
pub fn value_imm_or_gpr(input: &[Ch], at: usize) -> (r: Parsed<Value<String>>)
    requires
        at <= input@.len(),
    ensures
        value_step(r) == spec_value_imm_or_gpr(input@, at as int),
{
    let start = skip_run(input, at, CharClass::Space);
    match imm(input, start) {
        Parsed::Done { rest, value } => Parsed::Done {
            rest: skip_run(input, rest, CharClass::Space),
            value: Value::Imm(value),
        },
        _ => match gpr(input, start) {
            Parsed::Done { rest, value } => Parsed::Done { rest, value: Value::Gpr(value) },
            _ => Parsed::Error(ErrorKind::Alt),
        },
    }
}

} // verus!
