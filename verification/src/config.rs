//! The matrix of build configurations: which combinations of feature flags
//! are valid, in which order they are enumerated, and which of them a given
//! benchmark exercises.

use vstd::prelude::*;
use vstd::string::*;

use crate::text::{decimal, digit_char, lemma_views_add, push_decimal, push_string, views};

verus! {

/// Optimisation profile that the build tool is asked for.
#[derive(Clone, Copy, Debug, PartialEq, Eq, Structural)]
pub enum BuildMode {
    ReleaseFast,
    ReleaseSmall,
}

/// One point of the configuration matrix.
#[derive(Clone, Copy, Debug, PartialEq, Eq, Structural)]
pub struct BuildOpt {
    pub mode: BuildMode,
    /// Context management.
    pub ctx: bool,
    /// Shadow exception stacks.
    pub ses: bool,
    /// Shadow stacks.
    pub ss: bool,
    /// Shadow stacks abort on a mismatch.
    pub aborting_ss: bool,
    /// Indirect-call sanitizer.
    pub icall: bool,
    /// Accelerated privilege escalation.
    pub accel_raise_pri: bool,
    /// The "unnest" variant of shadow exception stacks.
    pub unnest: bool,
    /// Offset of the image in ROM; zero means the default placement.
    pub rom_offset: u8,
}

/// The feature dimensions that a benchmark exercises. A dimension that is
/// not exercised is pinned to one value instead of being varied.
#[derive(Clone, Copy, Debug, PartialEq, Eq, Structural)]
pub struct FeatureUse {
    pub shadow_exception_stacks: bool,
    pub shadow_stacks: bool,
    pub context_management: bool,
    pub accel_raise_pri: bool,
    pub icall_sanitizer: bool,
}

impl BuildOpt {
    /// The dependency graph among the flags.
    pub open spec fn is_valid(self) -> bool {
        &&& self.ss ==> self.ctx
        &&& self.ses ==> self.ctx
        &&& self.ss ==> self.ses
        &&& self.aborting_ss ==> self.ss
        &&& self.accel_raise_pri ==> self.ctx
        &&& self.unnest ==> self.ses
    }

    /// The complaint about the first broken dependency, in the order in which
    /// the dependencies are checked.
    pub open spec fn violation(self) -> Option<Seq<char>> {
        if self.ss && !self.ctx {
            Some("cfi-ss requires cfi-ctx"@)
        } else if self.ses && !self.ctx {
            Some("cfi-ses requires cfi-ctx"@)
        } else if self.ss && !self.ses {
            Some("cfi-ss requires cfi-ses"@)
        } else if self.aborting_ss && !self.ss {
            Some("aborting-ss requires cfi-ss"@)
        } else if self.accel_raise_pri && !self.ctx {
            Some("-Daccel-raise-pri requires -Dcfi-ctx"@)
        } else if self.unnest && !self.ses {
            Some("-Dcfi-unnest requires -Dcfi-ses"@)
        } else {
            None
        }
    }

    /// Checks the dependency graph and names the first broken dependency.
    pub fn validate(&self) -> (r: Result<(), &'static str>)
        ensures
            r is Ok <==> self.is_valid(),
            match r {
                Ok(_) => self.violation() is None,
                Err(msg) => self.violation() == Some(msg@),
            },
    {
        if self.ss && !self.ctx {
            return Err("cfi-ss requires cfi-ctx");
        }
        if self.ses && !self.ctx {
            return Err("cfi-ses requires cfi-ctx");
        }
        if self.ss && !self.ses {
            return Err("cfi-ss requires cfi-ses");
        }
        if self.aborting_ss && !self.ss {
            return Err("aborting-ss requires cfi-ss");
        }
        if self.accel_raise_pri && !self.ctx {
            return Err("-Daccel-raise-pri requires -Dcfi-ctx");
        }
        if self.unnest && !self.ses {
            return Err("-Dcfi-unnest requires -Dcfi-ses");
        }
        Ok(())
    }
}

/// The ROM offsets that are tried when the offset is varied.
pub open spec fn rom_offsets(vary_rom_offset: bool) -> Seq<u8> {
    if vary_rom_offset {
        seq![0u8, 4u8, 8u8, 12u8]
    } else {
        seq![0u8]
    }
}

/// Size of the Cartesian product of all flag domains.
pub open spec fn candidate_count(vary_rom_offset: bool) -> nat {
    256 * rom_offsets(vary_rom_offset).len()
}

/// The `i`-th point of the Cartesian product. The product is ordered
/// lexicographically by mode, `ctx`, `ses`, `unnest`, `ss`, `aborting_ss`,
/// `icall`, `accel_raise_pri` and ROM offset, the mode changing slowest;
/// `ReleaseFast` comes before `ReleaseSmall` and `false` before `true`.
pub open spec fn candidate(vary_rom_offset: bool, i: int) -> BuildOpt {
    let offsets = rom_offsets(vary_rom_offset);
    let flags = i / (offsets.len() as int);
    BuildOpt {
        mode: if flags / 128 == 0 {
            BuildMode::ReleaseFast
        } else {
            BuildMode::ReleaseSmall
        },
        ctx: (flags / 64) % 2 == 1,
        ses: (flags / 32) % 2 == 1,
        unnest: (flags / 16) % 2 == 1,
        ss: (flags / 8) % 2 == 1,
        aborting_ss: (flags / 4) % 2 == 1,
        icall: (flags / 2) % 2 == 1,
        accel_raise_pri: flags % 2 == 1,
        rom_offset: offsets[i % (offsets.len() as int)],
    }
}

/// The whole Cartesian product, in order.
pub open spec fn candidates(vary_rom_offset: bool) -> Seq<BuildOpt> {
    Seq::new(candidate_count(vary_rom_offset), |i: int| candidate(vary_rom_offset, i))
}

/// The valid configurations, in the order of the Cartesian product.
pub open spec fn valid_values(vary_rom_offset: bool) -> Seq<BuildOpt> {
    candidates(vary_rom_offset).filter(validity())
}

/// The dependency graph as a predicate.
pub open spec fn validity() -> spec_fn(BuildOpt) -> bool {
    |o: BuildOpt| o.is_valid()
}

impl BuildOpt {
    /// Computes the `i`-th point of the Cartesian product.
    fn nth_candidate(vary_rom_offset: bool, i: usize) -> (r: BuildOpt)
        requires
            i < candidate_count(vary_rom_offset),
        ensures
            r == candidate(vary_rom_offset, i as int),
    {
        proof {
            let offsets = rom_offsets(vary_rom_offset);
            assert(offsets.len() == if vary_rom_offset { 4nat } else { 1nat });
            assert(offsets[0] == 0);
            if vary_rom_offset {
                assert(offsets[1] == 4 && offsets[2] == 8 && offsets[3] == 12);
            }
        }
        let (flags, rom_offset): (usize, u8) = if vary_rom_offset {
            let k: usize = i % 4;
            let rom_offset: u8 = if k == 0 {
                0
            } else if k == 1 {
                4
            } else if k == 2 {
                8
            } else {
                12
            };
            (i / 4, rom_offset)
        } else {
            (i, 0)
        };
        BuildOpt {
            mode: if flags / 128 == 0 {
                BuildMode::ReleaseFast
            } else {
                BuildMode::ReleaseSmall
            },
            ctx: (flags / 64) % 2 == 1,
            ses: (flags / 32) % 2 == 1,
            unnest: (flags / 16) % 2 == 1,
            ss: (flags / 8) % 2 == 1,
            aborting_ss: (flags / 4) % 2 == 1,
            icall: (flags / 2) % 2 == 1,
            accel_raise_pri: flags % 2 == 1,
            rom_offset,
        }
    }

    /// Enumerates every valid configuration: the Cartesian product of the
    /// flag domains, filtered by the dependency graph. Invalid combinations
    /// are left out without complaint.
    pub fn all_valid_values(vary_rom_offset: bool) -> (r: Vec<BuildOpt>)
        ensures
            r@ == valid_values(vary_rom_offset),
            forall|k: int| 0 <= k < r.len() ==> (#[trigger] r[k]).is_valid(),
    {
        let total: usize = if vary_rom_offset {
            1024
        } else {
            256
        };
        let ghost all = candidates(vary_rom_offset);
        let ghost pred = validity();
        let mut out: Vec<BuildOpt> = Vec::new();
        let mut i: usize = 0;
        proof {
            reveal(Seq::filter);
            assert(all.take(0).filter(pred) =~= Seq::<BuildOpt>::empty());
        }
        while i < total
            invariant
                i <= total,
                total == candidate_count(vary_rom_offset),
                all == candidates(vary_rom_offset),
                pred == validity(),
                out@ == all.take(i as int).filter(pred),
            decreases total - i,
        {
            let opt = BuildOpt::nth_candidate(vary_rom_offset, i);
            proof {
                assert(all.take(i as int + 1) =~= all.take(i as int).push(opt));
                Seq::lemma_filter_push(all.take(i as int), opt, pred);
            }
            if opt.validate().is_ok() {
                out.push(opt);
            }
            i += 1;
        }
        proof {
            assert(all.take(total as int) =~= all);
            assert forall|k: int| 0 <= k < out.len() implies (#[trigger] out[k]).is_valid() by {
                all.lemma_filter_pred(pred, k);
            }
        }
        out
    }
}

impl BuildMode {
    /// The name of the profile.
    pub open spec fn name(self) -> Seq<char> {
        match self {
            BuildMode::ReleaseFast => "ReleaseFast"@,
            BuildMode::ReleaseSmall => "ReleaseSmall"@,
        }
    }

    /// The build argument that selects the profile.
    pub open spec fn build_arg(self) -> Seq<char> {
        match self {
            BuildMode::ReleaseFast => "-Drelease-fast"@,
            BuildMode::ReleaseSmall => "-Drelease-small"@,
        }
    }
}

/// `s` followed by `part` if `cond` holds, else `s`.
pub open spec fn with_part(s: Seq<char>, cond: bool, part: Seq<char>) -> Seq<char> {
    if cond {
        s + part
    } else {
        s
    }
}

/// `args` followed by `arg` if `cond` holds, else `args`.
pub open spec fn with_arg(args: Seq<Seq<char>>, cond: bool, arg: Seq<char>) -> Seq<Seq<char>> {
    if cond {
        args.push(arg)
    } else {
        args
    }
}

impl BuildOpt {
    /// The canonical id: the profile's name, then one `+`-prefixed part for
    /// each feature that is switched on, in a fixed order.
    pub open spec fn canonical_id(self) -> Seq<char> {
        let s = self.mode.name();
        let s = with_part(s, self.ctx, "+ctx"@);
        let s = with_part(s, self.ses && self.unnest, "+ses(unnest)"@);
        let s = with_part(s, self.ses && !self.unnest, "+ses"@);
        let s = with_part(s, self.ss && self.aborting_ss, "+ss(aborting)"@);
        let s = with_part(s, self.ss && !self.aborting_ss, "+ss(non-aborting)"@);
        let s = with_part(s, self.icall, "+icall"@);
        let s = with_part(s, self.accel_raise_pri, "+ape"@);
        with_part(s, self.rom_offset != 0, "+off("@ + decimal(self.rom_offset as nat) + ")"@)
    }

    /// Renders the canonical id, which serves as log label and as file name.
    pub fn to_string(&self) -> (r: String)
        ensures
            r@ == self.canonical_id(),
    {
        let mut s = match self.mode {
            BuildMode::ReleaseFast => "ReleaseFast".to_owned(),
            BuildMode::ReleaseSmall => "ReleaseSmall".to_owned(),
        };
        append_if(&mut s, self.ctx, "+ctx");
        append_if(&mut s, self.ses && self.unnest, "+ses(unnest)");
        append_if(&mut s, self.ses && !self.unnest, "+ses");
        append_if(&mut s, self.ss && self.aborting_ss, "+ss(aborting)");
        append_if(&mut s, self.ss && !self.aborting_ss, "+ss(non-aborting)");
        append_if(&mut s, self.icall, "+icall");
        append_if(&mut s, self.accel_raise_pri, "+ape");
        let mut off = "+off(".to_owned();
        push_decimal(&mut off, self.rom_offset as u64);
        off.append(")");
        append_if(&mut s, self.rom_offset != 0, off.as_str());
        s
    }

    /// The arguments that ask the build tool for this configuration.
    pub open spec fn build_args(self) -> Seq<Seq<char>> {
        let a = seq![self.mode.build_arg(), "-Dcfi=false"@];
        let a = with_arg(a, self.ctx, "-Dcfi-ctx"@);
        let a = with_arg(a, self.ses, "-Dcfi-ses"@);
        let a = with_arg(a, self.unnest, "-Dcfi-unnest"@);
        let a = with_arg(a, self.ss, "-Dcfi-ss"@);
        let a = with_arg(a, self.aborting_ss, "-Dcfi-aborting-ss"@);
        let a = with_arg(a, self.icall, "-Dcfi-icall"@);
        let a = a.push(
            if self.accel_raise_pri {
                "-Daccel-raise-pri"@
            } else {
                "-Daccel-raise-pri=false"@
            },
        );
        with_arg(a, self.rom_offset != 0, "-Drom-offset="@ + decimal(self.rom_offset as nat))
    }

    /// Appends the build arguments of this configuration to `args`.
    pub fn append_zig_build_opts_to(&self, args: &mut Vec<String>)
        ensures
            views(final(args)@) == views(old(args)@) + self.build_args(),
    {
        let mut own: Vec<String> = Vec::new();
        match self.mode {
            BuildMode::ReleaseFast => push_arg_if(&mut own, true, "-Drelease-fast".to_owned()),
            BuildMode::ReleaseSmall => push_arg_if(&mut own, true, "-Drelease-small".to_owned()),
        }
        push_arg_if(&mut own, true, "-Dcfi=false".to_owned());
        assert(views(own@) =~= seq![self.mode.build_arg(), "-Dcfi=false"@]);
        push_arg_if(&mut own, self.ctx, "-Dcfi-ctx".to_owned());
        push_arg_if(&mut own, self.ses, "-Dcfi-ses".to_owned());
        push_arg_if(&mut own, self.unnest, "-Dcfi-unnest".to_owned());
        push_arg_if(&mut own, self.ss, "-Dcfi-ss".to_owned());
        push_arg_if(&mut own, self.aborting_ss, "-Dcfi-aborting-ss".to_owned());
        push_arg_if(&mut own, self.icall, "-Dcfi-icall".to_owned());
        let accel = if self.accel_raise_pri {
            "-Daccel-raise-pri".to_owned()
        } else {
            "-Daccel-raise-pri=false".to_owned()
        };
        push_arg_if(&mut own, true, accel);
        let mut off = "-Drom-offset=".to_owned();
        push_decimal(&mut off, self.rom_offset as u64);
        push_arg_if(&mut own, self.rom_offset != 0, off);
        proof {
            lemma_views_add(args@, own@);
        }
        args.append(&mut own);
    }
}

/// Appends `part` if `cond` holds.
fn append_if(s: &mut String, cond: bool, part: &str)
    ensures
        final(s)@ == with_part(old(s)@, cond, part@),
{
    if cond {
        s.append(part);
    }
}

/// Appends `arg` to `args` if `cond` holds.
fn push_arg_if(args: &mut Vec<String>, cond: bool, arg: String)
    ensures
        views(final(args)@) == with_arg(views(old(args)@), cond, arg@),
{
    if cond {
        push_string(args, arg);
    }
}

impl BuildOpt {
    /// Whether a benchmark that exercises the dimensions `used` tests this
    /// configuration. A dimension that is not exercised is pinned: shadow
    /// exception stacks and context management to "on" (the former in the
    /// plain variant), the others to "off".
    pub open spec fn exercised_by(self, used: FeatureUse) -> bool {
        &&& !used.shadow_exception_stacks ==> self.ses && !self.unnest
        &&& !used.shadow_stacks ==> !self.ss
        &&& !used.context_management ==> self.ctx
        &&& !used.accel_raise_pri ==> !self.accel_raise_pri
        &&& !used.icall_sanitizer ==> !self.icall
    }

    /// Decides whether a benchmark that exercises `used` tests this
    /// configuration.
    pub fn is_exercised_by(&self, used: &FeatureUse) -> (r: bool)
        ensures
            r == self.exercised_by(*used),
    {
        if !used.shadow_exception_stacks && !(self.ses && !self.unnest) {
            return false;
        }
        if !used.shadow_stacks && self.ss {
            return false;
        }
        if !used.context_management && !self.ctx {
            return false;
        }
        if !used.accel_raise_pri && self.accel_raise_pri {
            return false;
        }
        if !used.icall_sanitizer && self.icall {
            return false;
        }
        true
    }
}

/// The configurations that are tested for a benchmark that exercises `used`:
/// the valid ones among which no unexercised dimension varies.
pub open spec fn selected_values(vary_rom_offset: bool, used: FeatureUse) -> Seq<BuildOpt> {
    valid_values(vary_rom_offset).filter(exercise(used))
}

/// "Is tested for a benchmark that exercises `used`", as a predicate.
pub open spec fn exercise(used: FeatureUse) -> spec_fn(BuildOpt) -> bool {
    |o: BuildOpt| o.exercised_by(used)
}

/// Enumerates the configurations to test for a benchmark, in the order of
/// the Cartesian product.
pub fn select_build_opts(vary_rom_offset: bool, used: &FeatureUse) -> (r: Vec<BuildOpt>)
    ensures
        r@ == selected_values(vary_rom_offset, *used),
        forall|k: int|
            0 <= k < r.len() ==> (#[trigger] r[k]).is_valid() && r[k].exercised_by(*used),
{
    let all = BuildOpt::all_valid_values(vary_rom_offset);
    let ghost pred = exercise(*used);
    let mut out: Vec<BuildOpt> = Vec::new();
    let mut i: usize = 0;
    proof {
        reveal(Seq::filter);
        assert(all@.take(0).filter(pred) =~= Seq::<BuildOpt>::empty());
    }
    while i < all.len()
        invariant
            i <= all.len(),
            pred == exercise(*used),
            out@ == all@.take(i as int).filter(pred),
            forall|k: int| 0 <= k < all.len() ==> (#[trigger] all[k]).is_valid(),
            forall|k: int|
                0 <= k < out.len() ==> (#[trigger] out[k]).is_valid() && out[k].exercised_by(*used),
        decreases all.len() - i,
    {
        let opt = all[i];
        proof {
            assert(all@.take(i as int + 1) =~= all@.take(i as int).push(opt));
            Seq::lemma_filter_push(all@.take(i as int), opt, pred);
        }
        if opt.is_exercised_by(used) {
            out.push(opt);
        }
        i += 1;
    }
    proof {
        assert(all@.take(all.len() as int) =~= all@);
    }
    out
}

/// Enumeration is repeatable: whatever two runs of the enumeration return
/// for the same inputs is the same sequence, in the same order.
pub proof fn lemma_enumeration_is_deterministic(
    vary_rom_offset: bool,
    used: FeatureUse,
    first: Vec<BuildOpt>,
    second: Vec<BuildOpt>,
    first_selected: Vec<BuildOpt>,
    second_selected: Vec<BuildOpt>,
)
    requires
        call_ensures(BuildOpt::all_valid_values, (vary_rom_offset,), first),
        call_ensures(BuildOpt::all_valid_values, (vary_rom_offset,), second),
        call_ensures(select_build_opts, (vary_rom_offset, &used), first_selected),
        call_ensures(select_build_opts, (vary_rom_offset, &used), second_selected),
    ensures
        first@ == second@,
        first_selected@ == second_selected@,
{
}

/// Nothing that is enumerated breaks a dependency among the flags, and
/// every valid point of the Cartesian product is enumerated.
pub proof fn lemma_enumerated_iff_valid(vary_rom_offset: bool, opt: BuildOpt)
    ensures
        valid_values(vary_rom_offset).contains(opt) <==> candidates(vary_rom_offset).contains(opt)
            && opt.is_valid(),
{
    broadcast use vstd::seq_lib::group_filter_ensures;

    let all = candidates(vary_rom_offset);
    let pred = validity();
    let valid = valid_values(vary_rom_offset);
    if valid.contains(opt) {
        let k = choose|k: int| 0 <= k < valid.len() && valid[k] == opt;
        all.lemma_filter_pred(pred, k);
        all.lemma_filter_contains_rev(pred, opt);
    }
    if all.contains(opt) && opt.is_valid() {
        let k = choose|k: int| 0 <= k < all.len() && all[k] == opt;
        all.lemma_filter_contains(pred, k);
    }
}

/// Whether a character can stand in a file name on every system: a letter
/// or digit of the basic alphabet, a plus or minus sign, or a bracket.
pub open spec fn file_name_safe(c: char) -> bool {
    ('a' <= c && c <= 'z') || ('A' <= c && c <= 'Z') || ('0' <= c && c <= '9') || c == '+' || c
        == '-' || c == '(' || c == ')'
}

/// Whether every character of a text can stand in a file name.
pub open spec fn all_file_name_safe(s: Seq<char>) -> bool {
    forall|i: int| 0 <= i < s.len() ==> file_name_safe(#[trigger] s[i])
}

/// A numeral consists of digits.
proof fn lemma_decimal_is_safe(n: nat)
    ensures
        all_file_name_safe(decimal(n)),
    decreases n,
{
    if n >= 10 {
        lemma_decimal_is_safe(n / 10);
    }
}

/// A part that is safe leaves a text safe.
proof fn lemma_part_is_safe(s: Seq<char>, cond: bool, part: Seq<char>)
    requires
        all_file_name_safe(s),
        all_file_name_safe(part),
    ensures
        all_file_name_safe(with_part(s, cond, part)),
{
}

/// The canonical id can serve as a file name: it is not empty and holds
/// nothing but letters and digits of the basic alphabet, signs and brackets.
pub proof fn lemma_canonical_id_is_file_name_safe(opt: BuildOpt)
    ensures
        opt.canonical_id().len() > 0,
        all_file_name_safe(opt.canonical_id()),
{
    reveal_strlit("ReleaseFast");
    reveal_strlit("ReleaseSmall");
    reveal_strlit("+ctx");
    reveal_strlit("+ses(unnest)");
    reveal_strlit("+ses");
    reveal_strlit("+ss(aborting)");
    reveal_strlit("+ss(non-aborting)");
    reveal_strlit("+icall");
    reveal_strlit("+ape");
    reveal_strlit("+off(");
    reveal_strlit(")");
    lemma_decimal_is_safe(opt.rom_offset as nat);
    let s0 = opt.mode.name();
    assert(all_file_name_safe(s0));
    let s1 = with_part(s0, opt.ctx, "+ctx"@);
    lemma_part_is_safe(s0, opt.ctx, "+ctx"@);
    let s2 = with_part(s1, opt.ses && opt.unnest, "+ses(unnest)"@);
    lemma_part_is_safe(s1, opt.ses && opt.unnest, "+ses(unnest)"@);
    let s3 = with_part(s2, opt.ses && !opt.unnest, "+ses"@);
    lemma_part_is_safe(s2, opt.ses && !opt.unnest, "+ses"@);
    let s4 = with_part(s3, opt.ss && opt.aborting_ss, "+ss(aborting)"@);
    lemma_part_is_safe(s3, opt.ss && opt.aborting_ss, "+ss(aborting)"@);
    let s5 = with_part(s4, opt.ss && !opt.aborting_ss, "+ss(non-aborting)"@);
    lemma_part_is_safe(s4, opt.ss && !opt.aborting_ss, "+ss(non-aborting)"@);
    let s6 = with_part(s5, opt.icall, "+icall"@);
    lemma_part_is_safe(s5, opt.icall, "+icall"@);
    let s7 = with_part(s6, opt.accel_raise_pri, "+ape"@);
    lemma_part_is_safe(s6, opt.accel_raise_pri, "+ape"@);
    let off = "+off("@ + decimal(opt.rom_offset as nat) + ")"@;
    assert(all_file_name_safe(off));
    lemma_part_is_safe(s7, opt.rom_offset != 0, off);
}

/// The part of the canonical id that stands for feature `k`, in the order
/// of the id; empty where the feature is switched off.
pub open spec fn id_part(opt: BuildOpt, k: int) -> Seq<char> {
    if k == 0 {
        with_part(Seq::empty(), opt.ctx, "+ctx"@)
    } else if k == 1 {
        with_part(Seq::empty(), opt.ses && opt.unnest, "+ses(unnest)"@)
    } else if k == 2 {
        with_part(Seq::empty(), opt.ses && !opt.unnest, "+ses"@)
    } else if k == 3 {
        with_part(Seq::empty(), opt.ss && opt.aborting_ss, "+ss(aborting)"@)
    } else if k == 4 {
        with_part(Seq::empty(), opt.ss && !opt.aborting_ss, "+ss(non-aborting)"@)
    } else if k == 5 {
        with_part(Seq::empty(), opt.icall, "+icall"@)
    } else if k == 6 {
        with_part(Seq::empty(), opt.accel_raise_pri, "+ape"@)
    } else if k == 7 {
        with_part(
            Seq::empty(),
            opt.rom_offset != 0,
            "+off("@ + decimal(opt.rom_offset as nat) + ")"@,
        )
    } else {
        Seq::empty()
    }
}

/// The parts of the canonical id from that of feature `k` on.
pub open spec fn id_tail(opt: BuildOpt, k: int) -> Seq<char>
    decreases 8 - k,
{
    if k >= 8 {
        Seq::empty()
    } else {
        id_part(opt, k) + id_tail(opt, k + 1)
    }
}

/// The feature whose part a tail of a canonical id starts with, told from
/// its first characters; 8 for an empty tail.
pub open spec fn first_feature(tail: Seq<char>) -> int {
    if tail.len() < 4 {
        8
    } else if tail[1] == 'c' {
        0
    } else if tail[1] == 's' && tail[2] == 'e' {
        if tail.len() > 4 && tail[4] == '(' {
            1
        } else {
            2
        }
    } else if tail[1] == 's' {
        if tail.len() > 4 && tail[4] == 'a' {
            3
        } else {
            4
        }
    } else if tail[1] == 'i' {
        5
    } else if tail[1] == 'a' {
        6
    } else {
        7
    }
}

/// The first feature from `k` on that is switched on; 8 if there is none.
pub open spec fn next_feature(opt: BuildOpt, k: int) -> int
    decreases 8 - k,
{
    if k >= 8 {
        8
    } else if id_part(opt, k).len() > 0 {
        k
    } else {
        next_feature(opt, k + 1)
    }
}

/// The canonical id is the profile's name and the parts of the features.
proof fn lemma_id_is_name_and_tail(opt: BuildOpt)
    ensures
        opt.canonical_id() == opt.mode.name() + id_tail(opt, 0),
{
    let s0 = opt.mode.name();
    let s1 = with_part(s0, opt.ctx, "+ctx"@);
    let s2 = with_part(s1, opt.ses && opt.unnest, "+ses(unnest)"@);
    let s3 = with_part(s2, opt.ses && !opt.unnest, "+ses"@);
    let s4 = with_part(s3, opt.ss && opt.aborting_ss, "+ss(aborting)"@);
    let s5 = with_part(s4, opt.ss && !opt.aborting_ss, "+ss(non-aborting)"@);
    let s6 = with_part(s5, opt.icall, "+icall"@);
    let s7 = with_part(s6, opt.accel_raise_pri, "+ape"@);
    let s8 = opt.canonical_id();
    assert(id_tail(opt, 8) =~= Seq::<char>::empty());
    assert(s8 =~= s8 + id_tail(opt, 8));
    lemma_part_moves(s7, id_part(opt, 7), id_tail(opt, 8));
    lemma_part_moves(s6, id_part(opt, 6), id_tail(opt, 7));
    lemma_part_moves(s5, id_part(opt, 5), id_tail(opt, 6));
    lemma_part_moves(s4, id_part(opt, 4), id_tail(opt, 5));
    lemma_part_moves(s3, id_part(opt, 3), id_tail(opt, 4));
    lemma_part_moves(s2, id_part(opt, 2), id_tail(opt, 3));
    lemma_part_moves(s1, id_part(opt, 1), id_tail(opt, 2));
    lemma_part_moves(s0, id_part(opt, 0), id_tail(opt, 1));
    assert(s1 =~= s0 + id_part(opt, 0));
    assert(s2 =~= s1 + id_part(opt, 1));
    assert(s3 =~= s2 + id_part(opt, 2));
    assert(s4 =~= s3 + id_part(opt, 3));
    assert(s5 =~= s4 + id_part(opt, 4));
    assert(s6 =~= s5 + id_part(opt, 5));
    assert(s7 =~= s6 + id_part(opt, 6));
    assert(s8 =~= s7 + id_part(opt, 7));
}

/// A part can be counted to what stands before it or to what follows it.
proof fn lemma_part_moves(s: Seq<char>, part: Seq<char>, tail: Seq<char>)
    ensures
        (s + part) + tail == s + (part + tail),
{
    assert((s + part) + tail =~= s + (part + tail));
}

/// A numeral is not empty and consists of digits.
proof fn lemma_decimal_digits(n: nat)
    ensures
        decimal(n).len() > 0,
        forall|i: int| 0 <= i < decimal(n).len() ==> '0' <= #[trigger] decimal(n)[i] <= '9',
    decreases n,
{
    if n >= 10 {
        lemma_decimal_digits(n / 10);
    }
}

/// Different numbers have different numerals.
proof fn lemma_decimal_is_injective(m: nat, n: nat)
    requires
        decimal(m) == decimal(n),
    ensures
        m == n,
    decreases m,
{
    lemma_decimal_digits(m / 10);
    lemma_decimal_digits(n / 10);
    if m >= 10 && n >= 10 {
        assert(decimal(m).drop_last() =~= decimal(m / 10));
        assert(decimal(n).drop_last() =~= decimal(n / 10));
        assert(decimal(m).last() == digit_char(m % 10));
        assert(decimal(n).last() == digit_char(n % 10));
        lemma_decimal_is_injective(m / 10, n / 10);
    } else if m < 10 && n < 10 {
        assert(decimal(m)[0] == digit_char(m));
        assert(decimal(n)[0] == digit_char(n));
    } else if m < 10 {
        assert(decimal(n).len() == decimal(n / 10).len() + 1);
        assert(decimal(m).len() == 1);
    } else {
        assert(decimal(m).len() == decimal(m / 10).len() + 1);
        assert(decimal(n).len() == 1);
    }
}

/// A part is empty or starts with a plus sign and is at least four
/// characters long; which feature it stands for can be told from its first
/// characters, whatever follows it, as long as that starts with a plus sign.
proof fn lemma_part_head(opt: BuildOpt, k: int, rest: Seq<char>)
    requires
        0 <= k < 8,
        id_part(opt, k).len() > 0,
        rest.len() == 0 || (rest.len() >= 4 && rest[0] == '+'),
    ensures
        id_part(opt, k).len() >= 4,
        id_part(opt, k)[0] == '+',
        first_feature(id_part(opt, k) + rest) == k,
{
    reveal_strlit("+ctx");
    reveal_strlit("+ses(unnest)");
    reveal_strlit("+ses");
    reveal_strlit("+ss(aborting)");
    reveal_strlit("+ss(non-aborting)");
    reveal_strlit("+icall");
    reveal_strlit("+ape");
    reveal_strlit("+off(");
    reveal_strlit(")");
    let part = id_part(opt, k);
    let all = part + rest;
    assert(all.len() >= 4);
    assert(all[1] == part[1] && all[2] == part[2]);
    if k == 2 {
        assert(part.len() == 4);
        if rest.len() > 0 {
            assert(all[4] == rest[0]);
        }
    } else if k == 7 {
        lemma_decimal_digits(opt.rom_offset as nat);
    } else if k == 1 || k == 3 || k == 4 {
        assert(all[4] == part[4]);
    }
}

/// A tail is empty or starts with a plus sign, and the feature that its
/// first characters tell is the first that is switched on.
proof fn lemma_tail_head(opt: BuildOpt, k: int)
    requires
        0 <= k <= 8,
    ensures
        id_tail(opt, k).len() == 0 || (id_tail(opt, k).len() >= 4 && id_tail(opt, k)[0] == '+'),
        first_feature(id_tail(opt, k)) == next_feature(opt, k),
        k <= next_feature(opt, k) <= 8,
        next_feature(opt, k) < 8 ==> id_tail(opt, k) == id_part(opt, next_feature(opt, k))
            + id_tail(opt, next_feature(opt, k) + 1) && id_part(opt, next_feature(opt, k)).len()
            > 0,
        next_feature(opt, k) == 8 ==> id_tail(opt, k).len() == 0,
    decreases 8 - k,
{
    if k < 8 {
        lemma_tail_head(opt, k + 1);
        if id_part(opt, k).len() > 0 {
            lemma_part_head(opt, k, id_tail(opt, k + 1));
        } else {
            assert(id_tail(opt, k) =~= id_tail(opt, k + 1));
        }
    }
}

/// Two configurations whose ids agree from feature `k` on agree in every
/// part from there on.
proof fn lemma_tails_agree(a: BuildOpt, b: BuildOpt, k: int)
    requires
        0 <= k <= 8,
        id_tail(a, k) == id_tail(b, k),
    ensures
        forall|j: int| k <= j < 8 ==> id_part(a, j) == id_part(b, j),
    decreases 8 - k,
{
    lemma_tail_head(a, k);
    lemma_tail_head(b, k);
    let n = next_feature(a, k);
    assert(n == next_feature(b, k));
    lemma_features_before(a, k, n);
    lemma_features_before(b, k, n);
    if n < 8 {
        let pa = id_part(a, n);
        let pb = id_part(b, n);
        let ra = id_tail(a, n + 1);
        let rb = id_tail(b, n + 1);
        lemma_tail_head(a, n + 1);
        lemma_tail_head(b, n + 1);
        if n == 7 {
            assert(ra.len() == 0 && rb.len() == 0) by {
                reveal_with_fuel(id_tail, 2);
            }
            assert(pa =~= pa + ra);
            assert(pb =~= pb + rb);
        } else {
            lemma_fixed_part(a, n);
            lemma_fixed_part(b, n);
            assert(ra =~= (pa + ra).skip(pa.len() as int));
            assert(rb =~= (pb + rb).skip(pb.len() as int));
            lemma_tails_agree(a, b, n + 1);
        }
    }
}

/// The features from `k` up to the first that is switched on are off.
proof fn lemma_features_before(opt: BuildOpt, k: int, n: int)
    requires
        0 <= k <= 8,
        n == next_feature(opt, k),
    ensures
        forall|j: int| k <= j < n ==> (#[trigger] id_part(opt, j)).len() == 0,
    decreases 8 - k,
{
    if k < 8 && id_part(opt, k).len() == 0 {
        lemma_features_before(opt, k + 1, n);
    }
}

/// The part of a feature other than the ROM offset is the same text
/// wherever the feature is switched on.
proof fn lemma_fixed_part(opt: BuildOpt, k: int)
    requires
        0 <= k < 7,
        id_part(opt, k).len() > 0,
    ensures
        id_part(opt, k) == fixed_part(k),
{
    assert(id_part(opt, k) =~= fixed_part(k));
}

/// The text that stands for feature `k`, other than the ROM offset.
spec fn fixed_part(k: int) -> Seq<char> {
    if k == 0 {
        "+ctx"@
    } else if k == 1 {
        "+ses(unnest)"@
    } else if k == 2 {
        "+ses"@
    } else if k == 3 {
        "+ss(aborting)"@
    } else if k == 4 {
        "+ss(non-aborting)"@
    } else if k == 5 {
        "+icall"@
    } else {
        "+ape"@
    }
}

/// No two valid configurations share a canonical id, so what is saved for
/// one of them is not overwritten by what is saved for another.
pub proof fn lemma_canonical_id_is_injective(a: BuildOpt, b: BuildOpt)
    requires
        a.is_valid(),
        b.is_valid(),
        a.canonical_id() == b.canonical_id(),
    ensures
        a == b,
{
    reveal_strlit("ReleaseFast");
    reveal_strlit("ReleaseSmall");
    reveal_strlit("+ctx");
    reveal_strlit("+ses(unnest)");
    reveal_strlit("+ses");
    reveal_strlit("+ss(aborting)");
    reveal_strlit("+ss(non-aborting)");
    reveal_strlit("+icall");
    reveal_strlit("+ape");
    reveal_strlit("+off(");
    reveal_strlit(")");
    lemma_id_is_name_and_tail(a);
    lemma_id_is_name_and_tail(b);
    let na = a.mode.name();
    let nb = b.mode.name();
    let ta = id_tail(a, 0);
    let tb = id_tail(b, 0);
    assert((na + ta)[7] == na[7]);
    assert((nb + tb)[7] == nb[7]);
    assert(a.mode == b.mode);
    assert(ta =~= (na + ta).skip(na.len() as int));
    assert(tb =~= (nb + tb).skip(nb.len() as int));
    lemma_tails_agree(a, b, 0);
    assert(id_part(a, 0) == id_part(b, 0));
    assert(id_part(a, 1) == id_part(b, 1));
    assert(id_part(a, 2) == id_part(b, 2));
    assert(id_part(a, 3) == id_part(b, 3));
    assert(id_part(a, 4) == id_part(b, 4));
    assert(id_part(a, 5) == id_part(b, 5));
    assert(id_part(a, 6) == id_part(b, 6));
    assert(id_part(a, 7) == id_part(b, 7));
    lemma_decimal_digits(a.rom_offset as nat);
    lemma_decimal_digits(b.rom_offset as nat);
    if a.rom_offset != 0 && b.rom_offset != 0 {
        let da = decimal(a.rom_offset as nat);
        let db = decimal(b.rom_offset as nat);
        let pa = "+off("@ + da + ")"@;
        let pb = "+off("@ + db + ")"@;
        assert(pa == pb);
        assert(da =~= pa.subrange(5, pa.len() - 1));
        assert(db =~= pb.subrange(5, pb.len() - 1));
        lemma_decimal_is_injective(a.rom_offset as nat, b.rom_offset as nat);
    }
}

} // verus!
