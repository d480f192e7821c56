//! Statements of an assembler file for Arm: instructions of the Armv8-M
//! subset, and the assembler's own directives.

use vstd::prelude::*;

use super::directive::{gas_directive_of, GasDirective, GasDirectiveView};
use super::parser::RawDirective;
use super::Directive;
use crate::arm::parse::{arm_directive_of, ArmDirective, ArmDirectiveView};

verus! {

/// A statement of an assembler file for Arm.
pub type ArmGasDirective = Directive<ArmDirective>;

/// A statement of an assembler file for Arm, as plain data.
pub enum ArmGasDirectiveView {
    Gas(GasDirectiveView),
    Target(ArmDirectiveView),
}

/// What a raw directive is in an assembler file for Arm: one of the machine
/// where the machine knows its key, else one of the assembler.
pub open spec fn arm_gas_directive_of(raw: RawDirective) -> Result<ArmGasDirectiveView, Seq<char>> {
    match arm_directive_of(raw.key@, raw.rest@) {
        Ok(Some(d)) => Ok(ArmGasDirectiveView::Target(d)),
        Ok(None) => match gas_directive_of(raw) {
            Ok(d) => Ok(ArmGasDirectiveView::Gas(d)),
            Err(message) => Err(message),
        },
        Err(message) => Err(message),
    }
}

/// A result of reading a directive, as plain data.
pub open spec fn arm_gas_result_view(r: Result<ArmGasDirective, String>) -> Result<
    ArmGasDirectiveView,
    Seq<char>,
> {
    match r {
        Ok(Directive::Gas(d)) => Ok(ArmGasDirectiveView::Gas(d@)),
        Ok(Directive::Target(d)) => Ok(ArmGasDirectiveView::Target(d@)),
        Err(message) => Err(message@),
    }
}

impl ArmGasDirective {
    /// Reads a raw directive: as an instruction or directive of the machine
    /// where the machine knows its key, else as a directive of the
    /// assembler.
    pub fn from_raw_directive(raw_directive: &RawDirective) -> (r: Result<ArmGasDirective, String>)
        ensures
            arm_gas_result_view(r) == arm_gas_directive_of(*raw_directive),
    {
        match ArmDirective::from_str(raw_directive.key.as_str(), raw_directive.rest.as_str()) {
            Ok(Some(x)) => Ok(Directive::Target(x)),
            Ok(None) => match GasDirective::from_raw_directive(raw_directive) {
                Ok(x) => Ok(Directive::Gas(x)),
                Err(message) => Err(message),
            },
            Err(message) => Err(message),
        }
    }
}

} // verus!
