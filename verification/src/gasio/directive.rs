//! The assembler's own directives, which are the same for every machine.

use vstd::prelude::*;
use vstd::string::*;

use super::parser::RawDirective;

verus! {

/// A directive of the assembler itself.
#[derive(Debug, PartialEq, Eq, Clone, Hash)]
pub enum GasDirective {
    /// A directive whose structure is of no interest, or is not supported
    /// yet: its kind and the rest of the statement, such as `.align` and `2`.
    Misc(GasMiscDirective, String),
}

/// A directive of the assembler as plain data.
pub enum GasDirectiveView {
    Misc(GasMiscDirective, Seq<char>),
}

impl View for GasDirective {
    type V = GasDirectiveView;

    open spec fn view(&self) -> GasDirectiveView {
        match self {
            GasDirective::Misc(kind, rest) => GasDirectiveView::Misc(*kind, rest@),
        }
    }
}

/// The directives of the assembler that are known by name.
#[derive(Debug, PartialEq, Eq, Structural, Clone, Copy, Hash)]
pub enum GasMiscDirective {
    Arch,
    Ascii,
    Align,
    CfiDefCfaOffset,
    CfiEndproc,
    CfiOffset,
    CfiRestore,
    CfiSections,
    CfiStartproc,
    Cpu,
    EabiAttribute,
    Extern,
    File,
    Fpu,
    Global,
    Ident,
    Loc,
    Section,
    SetValue,
    Size,
    Sleb128,
    Syntax,
    Text,
    Thumb,
    Thumbfunc,
    Type,
    Uleb128,
    Weak,
    Byte,
    Word,
    TwoByte,
    FourByte,
}

/// The known directives, in the order in which they are declared.
pub open spec fn all_kinds() -> Seq<GasMiscDirective> {
    seq![
        GasMiscDirective::Arch,
        GasMiscDirective::Ascii,
        GasMiscDirective::Align,
        GasMiscDirective::CfiDefCfaOffset,
        GasMiscDirective::CfiEndproc,
        GasMiscDirective::CfiOffset,
        GasMiscDirective::CfiRestore,
        GasMiscDirective::CfiSections,
        GasMiscDirective::CfiStartproc,
        GasMiscDirective::Cpu,
        GasMiscDirective::EabiAttribute,
        GasMiscDirective::Extern,
        GasMiscDirective::File,
        GasMiscDirective::Fpu,
        GasMiscDirective::Global,
        GasMiscDirective::Ident,
        GasMiscDirective::Loc,
        GasMiscDirective::Section,
        GasMiscDirective::SetValue,
        GasMiscDirective::Size,
        GasMiscDirective::Sleb128,
        GasMiscDirective::Syntax,
        GasMiscDirective::Text,
        GasMiscDirective::Thumb,
        GasMiscDirective::Thumbfunc,
        GasMiscDirective::Type,
        GasMiscDirective::Uleb128,
        GasMiscDirective::Weak,
        GasMiscDirective::Byte,
        GasMiscDirective::Word,
        GasMiscDirective::TwoByte,
        GasMiscDirective::FourByte,
    ]
}

/// The last of the first `n` known directives that is called `key`.
pub open spec fn kind_among(key: Seq<char>, n: int) -> Option<GasMiscDirective>
    decreases n,
{
    if n <= 0 || n > all_kinds().len() {
        None
    } else if all_kinds()[n - 1].spec_as_str() == key {
        Some(all_kinds()[n - 1])
    } else {
        kind_among(key, n - 1)
    }
}

/// The known directive that is called `key`, letter for letter.
pub open spec fn kind_named(key: Seq<char>) -> Option<GasMiscDirective> {
    kind_among(key, all_kinds().len() as int)
}

/// The complaint about a directive that is not known.
pub open spec fn unrecognized_message(key: Seq<char>) -> Seq<char> {
    "Unrecognized directive: '"@ + key + "'"@
}

/// What a raw directive is as a directive of the assembler.
pub open spec fn gas_directive_of(raw: RawDirective) -> Result<GasDirectiveView, Seq<char>> {
    match kind_named(raw.key@) {
        Some(kind) => Ok(GasDirectiveView::Misc(kind, raw.rest@)),
        None => Err(unrecognized_message(raw.key@)),
    }
}

/// A result of reading a directive, as plain data.
pub open spec fn gas_result_view(r: Result<GasDirective, String>) -> Result<
    GasDirectiveView,
    Seq<char>,
> {
    match r {
        Ok(d) => Ok(d@),
        Err(message) => Err(message@),
    }
}

/// The known directives, in the order in which they are declared.
fn kinds() -> (r: Vec<GasMiscDirective>)
    ensures
        r@ == all_kinds(),
{
    let mut kinds: Vec<GasMiscDirective> = Vec::new();
    kinds.push(GasMiscDirective::Arch);
    kinds.push(GasMiscDirective::Ascii);
    kinds.push(GasMiscDirective::Align);
    kinds.push(GasMiscDirective::CfiDefCfaOffset);
    kinds.push(GasMiscDirective::CfiEndproc);
    kinds.push(GasMiscDirective::CfiOffset);
    kinds.push(GasMiscDirective::CfiRestore);
    kinds.push(GasMiscDirective::CfiSections);
    kinds.push(GasMiscDirective::CfiStartproc);
    kinds.push(GasMiscDirective::Cpu);
    kinds.push(GasMiscDirective::EabiAttribute);
    kinds.push(GasMiscDirective::Extern);
    kinds.push(GasMiscDirective::File);
    kinds.push(GasMiscDirective::Fpu);
    kinds.push(GasMiscDirective::Global);
    kinds.push(GasMiscDirective::Ident);
    kinds.push(GasMiscDirective::Loc);
    kinds.push(GasMiscDirective::Section);
    kinds.push(GasMiscDirective::SetValue);
    kinds.push(GasMiscDirective::Size);
    kinds.push(GasMiscDirective::Sleb128);
    kinds.push(GasMiscDirective::Syntax);
    kinds.push(GasMiscDirective::Text);
    kinds.push(GasMiscDirective::Thumb);
    kinds.push(GasMiscDirective::Thumbfunc);
    kinds.push(GasMiscDirective::Type);
    kinds.push(GasMiscDirective::Uleb128);
    kinds.push(GasMiscDirective::Weak);
    kinds.push(GasMiscDirective::Byte);
    kinds.push(GasMiscDirective::Word);
    kinds.push(GasMiscDirective::TwoByte);
    kinds.push(GasMiscDirective::FourByte);
    assert(kinds@ =~= all_kinds());
    kinds
}

impl GasDirective {
    /// Reads a raw directive as a directive of the assembler: its key has to
    /// be the name of a known directive.
    pub fn from_raw_directive(raw_directive: &RawDirective) -> (r: Result<GasDirective, String>)
        ensures
            gas_result_view(r) == gas_directive_of(*raw_directive),
    {
        let kinds = kinds();
        let mut n = kinds.len();
        while n > 0
            invariant
                n <= kinds@.len(),
                kinds@ == all_kinds(),
                kind_among(raw_directive.key@, n as int) == kind_named(raw_directive.key@),
            decreases n,
        {
            let kind = kinds[n - 1];
            if kind.as_str().to_owned() == raw_directive.key {
                return Ok(GasDirective::Misc(kind, raw_directive.rest.clone()));
            }
            n -= 1;
        }
        let mut message = "Unrecognized directive: '".to_owned();
        message.append(raw_directive.key.as_str());
        message.append("'");
        Err(message)
    }

    /// The directive as it stands in an assembler file.
    pub open spec fn text(self) -> Seq<char> {
        match self {
            GasDirective::Misc(kind, rest) => kind.spec_as_str() + " "@ + rest@,
        }
    }

    /// Writes the directive as it stands in an assembler file.
    pub fn to_string(&self) -> (r: String)
        ensures
            r@ == self.text(),
    {
        match self {
            GasDirective::Misc(kind, rest) => {
                let mut s = kind.as_str().to_owned();
                s.append(" ");
                s.append(rest.as_str());
                s
            },
        }
    }
}

impl GasMiscDirective {
    /// The name of the directive.
    pub open spec fn spec_as_str(self) -> Seq<char> {
        match self {
            GasMiscDirective::Arch => ".arch"@,
            GasMiscDirective::Ascii => ".ascii"@,
            GasMiscDirective::Align => ".align"@,
            GasMiscDirective::CfiDefCfaOffset => ".cfi_def_cfa_offset"@,
            GasMiscDirective::CfiEndproc => ".cfi_endproc"@,
            GasMiscDirective::CfiOffset => ".cfi_offset"@,
            GasMiscDirective::CfiRestore => ".cfi_restore"@,
            GasMiscDirective::CfiSections => ".cfi_sections"@,
            GasMiscDirective::CfiStartproc => ".cfi_startproc"@,
            GasMiscDirective::Cpu => ".cpu"@,
            GasMiscDirective::EabiAttribute => ".eabi_attribute"@,
            GasMiscDirective::Extern => ".extern"@,
            GasMiscDirective::File => ".file"@,
            GasMiscDirective::Fpu => ".fpu"@,
            GasMiscDirective::Global => ".global"@,
            GasMiscDirective::Ident => ".ident"@,
            GasMiscDirective::Loc => ".loc"@,
            GasMiscDirective::Section => ".section"@,
            GasMiscDirective::SetValue => ".set"@,
            GasMiscDirective::Size => ".size"@,
            GasMiscDirective::Sleb128 => ".sleb128"@,
            GasMiscDirective::Syntax => ".syntax"@,
            GasMiscDirective::Text => ".text"@,
            GasMiscDirective::Thumb => ".thumb"@,
            GasMiscDirective::Thumbfunc => ".thumb_func"@,
            GasMiscDirective::Type => ".type"@,
            GasMiscDirective::Uleb128 => ".uleb128"@,
            GasMiscDirective::Weak => ".weak"@,
            GasMiscDirective::Byte => ".byte"@,
            GasMiscDirective::Word => ".word"@,
            GasMiscDirective::TwoByte => ".2byte"@,
            GasMiscDirective::FourByte => ".4byte"@,
        }
    }

    /// The name of the directive.
    pub fn as_str(&self) -> (r: &'static str)
        ensures
            r@ == self.spec_as_str(),
    {
        match self {
            GasMiscDirective::Arch => ".arch",
            GasMiscDirective::Ascii => ".ascii",
            GasMiscDirective::Align => ".align",
            GasMiscDirective::CfiDefCfaOffset => ".cfi_def_cfa_offset",
            GasMiscDirective::CfiEndproc => ".cfi_endproc",
            GasMiscDirective::CfiOffset => ".cfi_offset",
            GasMiscDirective::CfiRestore => ".cfi_restore",
            GasMiscDirective::CfiSections => ".cfi_sections",
            GasMiscDirective::CfiStartproc => ".cfi_startproc",
            GasMiscDirective::Cpu => ".cpu",
            GasMiscDirective::EabiAttribute => ".eabi_attribute",
            GasMiscDirective::Extern => ".extern",
            GasMiscDirective::File => ".file",
            GasMiscDirective::Fpu => ".fpu",
            GasMiscDirective::Global => ".global",
            GasMiscDirective::Ident => ".ident",
            GasMiscDirective::Loc => ".loc",
            GasMiscDirective::Section => ".section",
            GasMiscDirective::SetValue => ".set",
            GasMiscDirective::Size => ".size",
            GasMiscDirective::Sleb128 => ".sleb128",
            GasMiscDirective::Syntax => ".syntax",
            GasMiscDirective::Text => ".text",
            GasMiscDirective::Thumb => ".thumb",
            GasMiscDirective::Thumbfunc => ".thumb_func",
            GasMiscDirective::Type => ".type",
            GasMiscDirective::Uleb128 => ".uleb128",
            GasMiscDirective::Weak => ".weak",
            GasMiscDirective::Byte => ".byte",
            GasMiscDirective::Word => ".word",
            GasMiscDirective::TwoByte => ".2byte",
            GasMiscDirective::FourByte => ".4byte",
        }
    }
}

} // verus!
