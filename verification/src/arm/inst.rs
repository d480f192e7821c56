//! The structure of an Arm instruction.

use vstd::prelude::*;

verus! {

/// A general-purpose register, numbered from 0 to 15.
#[derive(Debug, PartialEq, Eq, Structural, PartialOrd, Ord, Clone, Copy, Hash)]
pub struct Gpr(pub u8);

/// A set of general-purpose registers: bit `i` stands for register `i`.
#[derive(Debug, PartialEq, Eq, Structural, Clone, Copy, Hash)]
pub struct GprSet(pub u32);

/// The bit that stands for register `i`.
pub open spec fn bit(i: u32) -> u32 {
    1u32 << i
}

impl View for GprSet {
    type V = Set<u8>;

    /// The numbers of the registers in the set.
    open spec fn view(&self) -> Set<u8> {
        Set::new(|r: u8| r < 32 && self.0 & bit(r as u32) != 0)
    }
}

/// A set given by the bit of register `i` alone holds that register alone.
pub proof fn lemma_single_bit(bits: u32, i: u32)
    requires
        i < 32,
    ensures
        bits == bit(i) <==> GprSet(bits)@ == set![i as u8],
{
    let s = GprSet(bits)@;
    if bits == bit(i) {
        assert forall|r: u8| s.contains(r) <==> r == i as u8 by {
            let r32 = r as u32;
            assert(r32 < 32 ==> ((1u32 << i) & (1u32 << r32) != 0 <==> r32 == i)) by (bit_vector)
                requires
                    i < 32,
            ;
        }
        assert(s =~= set![i as u8]);
    }
    if s == set![i as u8] {
        assert(s.contains(i as u8));
        let others = bits & !(1u32 << i);
        if others != 0 {
            vstd::std_specs::bits::axiom_u32_trailing_zeros(others);
            let r = vstd::std_specs::bits::u32_trailing_zeros(others);
            assert(bits & (1u32 << r) != 0 && r != i) by (bit_vector)
                requires
                    r < 32,
                    i < 32,
                    (others >> r) & 1u32 == 1u32,
                    others == bits & !(1u32 << i),
            ;
            assert(s.contains(r as u8));
        }
        assert(bits == 1u32 << i) by (bit_vector)
            requires
                i < 32,
                bits & (1u32 << i) != 0,
                bits & !(1u32 << i) == 0,
        ;
    }
}

impl GprSet {
    /// The register of a set that holds exactly one, else `None`.
    pub fn unique(&self) -> (r: Option<Gpr>)
        ensures
            match r {
                Some(gpr) => gpr.0 < 32 && self@ == set![gpr.0],
                None => forall|i: u8| self@ != set![i],
            },
    {
        let mut i: u32 = 0;
        while i < 32
            invariant
                i <= 32,
                forall|j: u32| j < i ==> self.0 != bit(j),
            decreases 32 - i,
        {
            if self.0 == 1u32 << i {
                proof {
                    lemma_single_bit(self.0, i);
                }
                return Some(Gpr(i as u8));
            }
            i += 1;
        }
        proof {
            assert forall|k: u8| self@ != set![k] by {
                if self@ == set![k] {
                    assert(self@.contains(k));
                    lemma_single_bit(self.0, k as u32);
                }
            }
        }
        None
    }

    /// The registers of the set with a number below `n`, from the lowest
    /// number up.
    pub open spec fn members_below(self, n: nat) -> Seq<Gpr>
        decreases n,
    {
        if n == 0 {
            Seq::empty()
        } else if n <= 32 && self.0 & bit((n - 1) as u32) != 0 {
            self.members_below((n - 1) as nat).push(Gpr((n - 1) as u8))
        } else {
            self.members_below((n - 1) as nat)
        }
    }

    /// The registers of the set, from the lowest number up.
    pub open spec fn members(self) -> Seq<Gpr> {
        self.members_below(32)
    }

    /// The registers of the set, from the lowest number up.
    pub fn iter(&self) -> (r: Vec<Gpr>)
        ensures
            r@ == self.members(),
    {
        let mut out: Vec<Gpr> = Vec::new();
        let mut i: u32 = 0;
        while i < 32
            invariant
                i <= 32,
                out@ == self.members_below(i as nat),
            decreases 32 - i,
        {
            if self.0 & (1u32 << i) != 0 {
                out.push(Gpr(i as u8));
            }
            i += 1;
        }
        out
    }
}

/// The members of a set are its registers, each once, in rising order.
pub proof fn lemma_members(set: GprSet, n: nat)
    requires
        n <= 32,
    ensures
        forall|k: int|
            0 <= k < set.members_below(n).len() ==> set@.contains(
                (#[trigger] set.members_below(n)[k]).0,
            ) && set.members_below(n)[k].0 < n,
        forall|k: int, l: int|
            0 <= k < l < set.members_below(n).len() ==> set.members_below(n)[k].0
                < set.members_below(n)[l].0,
        forall|i: u8| i < n && set@.contains(i) ==> set.members_below(n).contains(Gpr(i)),
    decreases n,
{
    if n > 0 {
        let before = set.members_below((n - 1) as nat);
        let now = set.members_below(n);
        lemma_members(set, (n - 1) as nat);
        assert forall|i: u8| i < n && set@.contains(i) implies now.contains(Gpr(i)) by {
            if i < n - 1 {
                let k = choose|k: int| 0 <= k < before.len() && before[k] == Gpr(i);
                assert(now[k] == Gpr(i));
            } else {
                assert(now[now.len() - 1] == Gpr(i));
            }
        }
    }
}

impl From<Gpr> for GprSet {
    /// The set that holds the one register; empty for a number that is not
    /// that of a register.
    fn from(x: Gpr) -> (r: GprSet) {
        if x.0 < 32 {
            GprSet(1u32 << (x.0 as u32))
        } else {
            GprSet(0)
        }
    }
}

impl vstd::std_specs::convert::FromSpecImpl<Gpr> for GprSet {
    open spec fn obeys_from_spec() -> bool {
        true
    }

    open spec fn from_spec(x: Gpr) -> GprSet {
        if x.0 < 32 {
            GprSet(bit(x.0 as u32))
        } else {
            GprSet(0)
        }
    }
}

/// A condition under which an instruction is executed.
#[derive(Debug, PartialEq, Eq, Structural, PartialOrd, Ord, Clone, Copy, Hash)]
pub enum Cond {
    Equal,
    NotEqual,
    CarrySet,
    CarryClear,
    Minus,
    Plus,
    Overflow,
    NoOverflow,
    UnsignedGreaterThanOrEqual,
    UnsignedLessThan,
    SignedGreaterThanOrEqual,
    SignedLessThan,
    SignedGreaterThan,
    SignedLessThanOrEqual,
    Always,
}

impl Cond {
    /// The condition's code in an instruction's encoding.
    pub open spec fn code(self) -> u32 {
        match self {
            Cond::Equal => 0,
            Cond::NotEqual => 1,
            Cond::CarrySet => 2,
            Cond::CarryClear => 3,
            Cond::Minus => 4,
            Cond::Plus => 5,
            Cond::Overflow => 6,
            Cond::NoOverflow => 7,
            Cond::UnsignedGreaterThanOrEqual => 8,
            Cond::UnsignedLessThan => 9,
            Cond::SignedGreaterThanOrEqual => 10,
            Cond::SignedLessThan => 11,
            Cond::SignedGreaterThan => 12,
            Cond::SignedLessThanOrEqual => 13,
            Cond::Always => 14,
        }
    }

    /// The condition with the given code, if there is one.
    pub fn from_value(x: u32) -> (r: Option<Cond>)
        ensures
            match r {
                Some(cond) => cond.code() == x,
                None => x >= 15,
            },
    {
        if x == 0 {
            Some(Cond::Equal)
        } else if x == 1 {
            Some(Cond::NotEqual)
        } else if x == 2 {
            Some(Cond::CarrySet)
        } else if x == 3 {
            Some(Cond::CarryClear)
        } else if x == 4 {
            Some(Cond::Minus)
        } else if x == 5 {
            Some(Cond::Plus)
        } else if x == 6 {
            Some(Cond::Overflow)
        } else if x == 7 {
            Some(Cond::NoOverflow)
        } else if x == 8 {
            Some(Cond::UnsignedGreaterThanOrEqual)
        } else if x == 9 {
            Some(Cond::UnsignedLessThan)
        } else if x == 10 {
            Some(Cond::SignedGreaterThanOrEqual)
        } else if x == 11 {
            Some(Cond::SignedLessThan)
        } else if x == 12 {
            Some(Cond::SignedGreaterThan)
        } else if x == 13 {
            Some(Cond::SignedLessThanOrEqual)
        } else if x == 14 {
            Some(Cond::Always)
        } else {
            None
        }
    }

    /// The condition's code in an instruction's encoding.
    pub fn value(self) -> (r: u32)
        ensures
            r == self.code(),
            r < 15,
    {
        match self {
            Cond::Equal => 0,
            Cond::NotEqual => 1,
            Cond::CarrySet => 2,
            Cond::CarryClear => 3,
            Cond::Minus => 4,
            Cond::Plus => 5,
            Cond::Overflow => 6,
            Cond::NoOverflow => 7,
            Cond::UnsignedGreaterThanOrEqual => 8,
            Cond::UnsignedLessThan => 9,
            Cond::SignedGreaterThanOrEqual => 10,
            Cond::SignedLessThan => 11,
            Cond::SignedGreaterThan => 12,
            Cond::SignedLessThanOrEqual => 13,
            Cond::Always => 14,
        }
    }
}

/// An Arm instruction, possibly one that is undefined or cannot be encoded.
#[derive(Debug, PartialEq, Eq, Clone, Copy, Hash)]
pub struct Inst<T> {
    pub kind: InstKind<T>,
    pub cond: Cond,
}

#[derive(Debug, PartialEq, Eq, Clone, Copy, Hash)]
pub enum InstKind<T> {
    /// A branch: `B` (to a label or constant, without link), `BL` (the same
    /// with link), `BX` (to a register, without link) and `BLX` (to a
    /// register, with link), each also in a non-secure form.
    Branch { target: Value<T>, link: bool, nonsecure: bool },
    /// A load into registers: `LDR` (one register), `LDMIA` (displacement 4,
    /// applied after the load) and `LDMDB` (displacement -4, applied before).
    LoadGpr { address: Value<T>, disp: Disp, write_back: Option<WriteBackMode>, set: GprSet },
}

#[derive(Debug, PartialEq, Eq, Structural, Clone, Copy, Hash)]
pub enum WriteBackMode {
    /// The displacement is applied after the operation, and the updated
    /// address is written back to the address register.
    PostIndex,
    /// The displacement is applied before the operation, and the updated
    /// address is written back to the address register.
    PreIndex,
}

#[derive(Debug, PartialEq, Eq, Clone, Copy, Hash)]
pub enum Value<T> {
    /// A constant.
    Imm(T),
    /// A label.
    Label(T),
    /// The contents of a register.
    Gpr(Gpr),
}

#[derive(Debug, PartialEq, Eq, Structural, Clone, Copy, Hash)]
pub enum Disp {
    /// A constant displacement.
    Imm(i32),
    /// A displacement taken from a register and shifted left by the second
    /// value.
    Gpr(Gpr, u8),
}

} // verus!
