//! A reader for the GNU assembler syntax, as far as a compiler's output
//! needs it. The grammar follows the assembler's documentation loosely.

use vstd::prelude::*;

pub mod arm;
pub mod common;
pub mod directive;
pub mod parser;

pub use self::directive::{GasDirective, GasMiscDirective};
pub use self::parser::{Error, GasParser, RawDirective, Statement};

verus! {

/// A directive of the assembler itself, or one of the machine: an
/// instruction, for the most part.
#[derive(Debug, PartialEq, Eq, Clone, Hash)]
pub enum Directive<T> {
    Gas(GasDirective),
    Target(T),
}

impl<T> From<GasDirective> for Directive<T> {
    fn from(x: GasDirective) -> (r: Directive<T>) {
        Directive::Gas(x)
    }
}

impl<T> vstd::std_specs::convert::FromSpecImpl<GasDirective> for Directive<T> {
    open spec fn obeys_from_spec() -> bool {
        true
    }

    open spec fn from_spec(x: GasDirective) -> Directive<T> {
        Directive::Gas(x)
    }
}

} // verus!
