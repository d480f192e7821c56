//! An import library for the entry points of the secure world: which
//! symbols it holds, where the objects define them, and the assembler file
//! that sets them.

use vstd::prelude::*;
use vstd::string::*;

use crate::text::{chars_of, push_char, string_of};

verus! {

/// A symbol of an object file.
#[derive(Debug, Clone, PartialEq, Eq)]
pub struct Symbol {
    pub name: String,
    /// The address that the symbol stands for.
    pub value: u64,
}

/// A symbol as plain data.
pub struct SymbolView {
    pub name: Seq<char>,
    pub value: u64,
}

impl View for Symbol {
    type V = SymbolView;

    open spec fn view(&self) -> SymbolView {
        SymbolView { name: self.name@, value: self.value }
    }
}

/// The symbols of a sequence as plain data.
pub open spec fn symbol_views(symbols: Seq<Symbol>) -> Seq<SymbolView> {
    symbols.map_values(|s: Symbol| s@)
}

/// A symbol of the import library, with its address once an object has
/// defined it.
pub struct Entry {
    pub name: Seq<char>,
    pub address: Option<u64>,
}

/// The text that marks a symbol as the entry point of the symbol that the
/// rest of its name names.
pub open spec fn entry_prefix() -> Seq<char> {
    "__acle_se_"@
}

/// The position of the first symbol called `name` among `entries` from
/// `from` on, or the number of entries if there is none.
pub open spec fn index_from(entries: Seq<Entry>, name: Seq<char>, from: int) -> int
    decreases entries.len() - from,
{
    if from < 0 || from >= entries.len() {
        entries.len() as int
    } else if entries[from].name == name {
        from
    } else {
        index_from(entries, name, from + 1)
    }
}

/// The position of the symbol `name` among `entries`, or their number if it
/// is not among them.
pub open spec fn index_of(entries: Seq<Entry>, name: Seq<char>) -> int {
    index_from(entries, name, 0)
}

/// The position that is found holds the symbol, and no position before it
/// does.
pub proof fn lemma_index_from(entries: Seq<Entry>, name: Seq<char>, from: int)
    requires
        0 <= from <= entries.len(),
    ensures
        from <= index_from(entries, name, from) <= entries.len(),
        index_from(entries, name, from) < entries.len() ==> entries[index_from(
            entries,
            name,
            from,
        )].name == name,
        forall|k: int| from <= k < index_from(entries, name, from) ==> (#[trigger] entries[k]).name != name,
    decreases entries.len() - from,
{
    if from < entries.len() && entries[from].name != name {
        lemma_index_from(entries, name, from + 1);
    }
}

/// Whether no symbol stands twice among `entries`.
pub open spec fn distinct(entries: Seq<Entry>) -> bool {
    forall|i: int, j: int|
        0 <= i < j < entries.len() ==> (#[trigger] entries[i]).name != (#[trigger] entries[j]).name
}

/// `entries` with the symbol `name` taken in without an address: one that
/// is there already loses its address and keeps its place.
pub open spec fn with_symbol(entries: Seq<Entry>, name: Seq<char>) -> Seq<Entry> {
    let i = index_of(entries, name);
    if 0 <= i < entries.len() {
        entries.update(i, Entry { name, address: None })
    } else {
        entries.push(Entry { name, address: None })
    }
}

/// `entries` with the symbols `names` taken in, one after the other.
pub open spec fn with_symbols(entries: Seq<Entry>, names: Seq<Seq<char>>) -> Seq<Entry>
    decreases names.len(),
{
    if names.len() == 0 {
        entries
    } else {
        with_symbol(with_symbols(entries, names.drop_last()), names.last())
    }
}

/// Whether `name` starts with the marker of an entry point.
pub open spec fn is_entry_marker(name: Seq<char>) -> bool {
    name.len() >= entry_prefix().len() && name.take(entry_prefix().len() as int) == entry_prefix()
}

/// `entries` with the entry points taken in that `symbols` mark, one after
/// the other.
pub open spec fn with_marked(entries: Seq<Entry>, symbols: Seq<SymbolView>) -> Seq<Entry>
    decreases symbols.len(),
{
    if symbols.len() == 0 {
        entries
    } else {
        let before = with_marked(entries, symbols.drop_last());
        if is_entry_marker(symbols.last().name) {
            with_symbol(before, symbols.last().name.skip(entry_prefix().len() as int))
        } else {
            before
        }
    }
}

/// `entries` with the addresses that `symbols` give to those of them that
/// are in the library; the last definition of a symbol counts.
pub open spec fn with_definitions(entries: Seq<Entry>, symbols: Seq<SymbolView>) -> Seq<Entry>
    decreases symbols.len(),
{
    if symbols.len() == 0 {
        entries
    } else {
        let before = with_definitions(entries, symbols.drop_last());
        let i = index_of(before, symbols.last().name);
        if 0 <= i < before.len() {
            before.update(
                i,
                Entry { name: symbols.last().name, address: Some(symbols.last().value) },
            )
        } else {
            before
        }
    }
}

/// The symbols of the library that `symbols` define although they had an
/// address already, once for each such definition, in the order of
/// `symbols`.
pub open spec fn redefinitions(entries: Seq<Entry>, symbols: Seq<SymbolView>) -> Seq<Seq<char>>
    decreases symbols.len(),
{
    if symbols.len() == 0 {
        Seq::empty()
    } else {
        let before = with_definitions(entries, symbols.drop_last());
        let earlier = redefinitions(entries, symbols.drop_last());
        let i = index_of(before, symbols.last().name);
        if 0 <= i < before.len() && before[i].address is Some {
            earlier.push(symbols.last().name)
        } else {
            earlier
        }
    }
}

/// The symbols of the library that have no address, in their order.
pub open spec fn undefined(entries: Seq<Entry>) -> Seq<Seq<char>>
    decreases entries.len(),
{
    if entries.len() == 0 {
        Seq::empty()
    } else if entries.last().address is None {
        undefined(entries.drop_last()).push(entries.last().name)
    } else {
        undefined(entries.drop_last())
    }
}

/// The symbols of the library that have an address, in their order.
pub open spec fn defined(entries: Seq<Entry>) -> Seq<SymbolView>
    decreases entries.len(),
{
    if entries.len() == 0 {
        Seq::empty()
    } else {
        match entries.last().address {
            Some(value) => defined(entries.drop_last()).push(
                SymbolView { name: entries.last().name, value },
            ),
            None => defined(entries.drop_last()),
        }
    }
}

/// Where `symbol` goes among `sorted`: behind every symbol whose address is
/// not above its own.
pub open spec fn place_for(sorted: Seq<SymbolView>, value: u64) -> int
    decreases sorted.len(),
{
    if sorted.len() == 0 {
        0
    } else if sorted.last().value <= value {
        sorted.len() as int
    } else {
        place_for(sorted.drop_last(), value)
    }
}

/// `symbols` in the order of their addresses; symbols with the same
/// address keep their order.
pub open spec fn sorted_by_address(symbols: Seq<SymbolView>) -> Seq<SymbolView>
    decreases symbols.len(),
{
    if symbols.len() == 0 {
        Seq::empty()
    } else {
        let before = sorted_by_address(symbols.drop_last());
        before.insert(place_for(before, symbols.last().value), symbols.last())
    }
}

/// Whether the addresses of `symbols` do not fall.
pub open spec fn is_sorted(symbols: Seq<SymbolView>) -> bool {
    forall|i: int, j: int|
        0 <= i <= j < symbols.len() ==> (#[trigger] symbols[i]).value <= (#[trigger] symbols[j]).value
}

/// A symbol's place among sorted symbols lies within them, behind the
/// symbols whose address is not above its own and before the others.
pub proof fn lemma_place_for(sorted: Seq<SymbolView>, value: u64)
    requires
        is_sorted(sorted),
    ensures
        0 <= place_for(sorted, value) <= sorted.len(),
        forall|i: int| 0 <= i < place_for(sorted, value) ==> (#[trigger] sorted[i]).value <= value,
        forall|i: int|
            place_for(sorted, value) <= i < sorted.len() ==> (#[trigger] sorted[i]).value > value,
    decreases sorted.len(),
{
    if sorted.len() > 0 && sorted.last().value <= value {
        assert forall|i: int| 0 <= i < sorted.len() implies (#[trigger] sorted[i]).value
            <= value by {
            assert(sorted[i].value <= sorted[sorted.len() - 1].value);
        }
    }
    if sorted.len() > 0 && sorted.last().value > value {
        let rest = sorted.drop_last();
        assert(is_sorted(rest)) by {
            assert forall|i: int, j: int| 0 <= i <= j < rest.len() implies rest[i].value
                <= rest[j].value by {
                assert(rest[i] == sorted[i] && rest[j] == sorted[j]);
            }
        }
        lemma_place_for(rest, value);
        assert forall|i: int| place_for(sorted, value) <= i < sorted.len() implies (
        #[trigger] sorted[i]).value > value by {
            if i < rest.len() {
                assert(rest[i] == sorted[i]);
            }
        }
        assert forall|i: int| 0 <= i < place_for(sorted, value) implies (
        #[trigger] sorted[i]).value <= value by {
            assert(rest[i] == sorted[i]);
        }
    }
}

/// Sorting yields the same symbols, each as often as before, in the order
/// of their addresses.
pub proof fn lemma_sorted_by_address(symbols: Seq<SymbolView>)
    ensures
        is_sorted(sorted_by_address(symbols)),
        sorted_by_address(symbols).to_multiset() == symbols.to_multiset(),
        sorted_by_address(symbols).len() == symbols.len(),
    decreases symbols.len(),
{
    broadcast use vstd::seq_lib::group_to_multiset_ensures;

    if symbols.len() == 0 {
        assert(sorted_by_address(symbols).to_multiset() =~= symbols.to_multiset());
    } else {
        let rest = symbols.drop_last();
        let last = symbols.last();
        let before = sorted_by_address(rest);
        lemma_sorted_by_address(rest);
        lemma_place_for(before, last.value);
        let at = place_for(before, last.value);
        let after = before.insert(at, last);
        assert forall|i: int, j: int| 0 <= i <= j < after.len() implies after[i].value
            <= after[j].value by {
            if i < at && j > at {
                assert(after[i] == before[i] && after[j] == before[j - 1]);
            } else if i < at && j < at {
                assert(after[i] == before[i] && after[j] == before[j]);
            } else if i > at {
                assert(after[i] == before[i - 1] && after[j] == before[j - 1]);
            }
        }
        vstd::seq_lib::to_multiset_insert(before, at, last);
        vstd::seq_lib::to_multiset_build(rest, last);
        assert(symbols =~= rest.push(last));
    }
}

/// The digit of a value below sixteen.
pub open spec fn hex_digit(d: nat) -> char {
    if d < 10 {
        crate::text::digit_char(d)
    } else if d == 10 {
        'a'
    } else if d == 11 {
        'b'
    } else if d == 12 {
        'c'
    } else if d == 13 {
        'd'
    } else if d == 14 {
        'e'
    } else {
        'f'
    }
}

/// The hexadecimal numeral of `n` in small letters, filled with zeros on
/// the left to `width` digits.
pub open spec fn hex(n: nat, width: nat) -> Seq<char>
    decreases n + width,
{
    if n < 16 && width <= 1 {
        seq![hex_digit(n)]
    } else {
        hex(n / 16, if width > 0 {
            (width - 1) as nat
        } else {
            0
        }).push(hex_digit(n % 16))
    }
}

/// What the assembler file says of one symbol: that it is a function, where
/// it lies, and that it is visible to other objects.
pub open spec fn symbol_text(symbol: SymbolView) -> Seq<char> {
    ".type "@ + symbol.name + " function\n.set "@ + symbol.name + ", 0x"@ + hex(
        symbol.value as nat,
        8,
    ) + "\n.global "@ + symbol.name + "\n"@
}

/// What the assembler file says of `symbols`.
pub open spec fn symbols_text(symbols: Seq<SymbolView>) -> Seq<char>
    decreases symbols.len(),
{
    if symbols.len() == 0 {
        Seq::empty()
    } else {
        symbols_text(symbols.drop_last()) + symbol_text(symbols.last())
    }
}

/// The assembler file that sets `symbols`.
pub open spec fn library_text(symbols: Seq<SymbolView>) -> Seq<char> {
    ".syntax unified\n"@ + symbols_text(symbols)
}

/// A symbol of the import library as the library holds it.
#[derive(Debug)]
struct Slot {
    name: String,
    address: Option<u64>,
}

/// The symbols of an import library: those that were asked for and those
/// that the objects mark as entry points, each once, with the addresses
/// that the objects give them.
#[derive(Debug)]
pub struct ImportLibrary {
    slots: Vec<Slot>,
}

/// A slot as plain data.
spec fn entry_of(slot: Slot) -> Entry {
    Entry { name: slot.name@, address: slot.address }
}

/// Slots as plain data.
spec fn entries_of(slots: Seq<Slot>) -> Seq<Entry> {
    slots.map_values(|slot: Slot| entry_of(slot))
}

/// Looks for the symbol `name`.
fn find(slots: &Vec<Slot>, name: &String) -> (r: usize)
    ensures
        r == index_of(entries_of(slots@), name@),
        r <= slots@.len(),
{
    let mut i: usize = 0;
    while i < slots.len()
        invariant
            i <= slots@.len(),
            index_from(entries_of(slots@), name@, i as int) == index_of(entries_of(slots@), name@),
        decreases slots@.len() - i,
    {
        if slots[i].name == *name {
            return i;
        }
        i += 1;
    }
    i
}

/// Takes in the symbol `name` without an address.
fn take_in(slots: &mut Vec<Slot>, name: String)
    requires
        distinct(entries_of(old(slots)@)),
    ensures
        distinct(entries_of(final(slots)@)),
        entries_of(final(slots)@) == with_symbol(entries_of(old(slots)@), name@),
{
    let ghost before = entries_of(slots@);
    let i = find(slots, &name);
    proof {
        lemma_index_from(before, name@, 0);
    }
    if i < slots.len() {
        slots.set(i, Slot { name, address: None });
        proof {
            assert(entries_of(slots@) =~= before.update(
                i as int,
                Entry { name: name@, address: None },
            ));
        }
    } else {
        slots.push(Slot { name, address: None });
        proof {
            assert(entries_of(slots@) =~= before.push(Entry { name: name@, address: None }));
        }
    }
}

/// Decides whether `name` starts with the marker of an entry point.
fn starts_with_marker(name: &Vec<char>) -> (r: bool)
    ensures
        r == is_entry_marker(name@),
{
    let prefix = chars_of("__acle_se_");
    if name.len() < prefix.len() {
        return false;
    }
    let mut i: usize = 0;
    while i < prefix.len()
        invariant
            i <= prefix@.len() <= name@.len(),
            prefix@ == entry_prefix(),
            forall|k: int| 0 <= k < i ==> name@[k] == prefix@[k],
        decreases prefix@.len() - i,
    {
        if name[i] != prefix[i] {
            proof {
                assert(name@.take(prefix@.len() as int)[i as int] != prefix@[i as int]);
            }
            return false;
        }
        i += 1;
    }
    proof {
        assert(name@.take(prefix@.len() as int) =~= prefix@);
    }
    true
}

/// The digit of a value below sixteen.
fn hex_digit_of(d: u64) -> (c: char)
    requires
        d < 16,
    ensures
        c == hex_digit(d as nat),
{
    if d == 0 {
        '0'
    } else if d == 1 {
        '1'
    } else if d == 2 {
        '2'
    } else if d == 3 {
        '3'
    } else if d == 4 {
        '4'
    } else if d == 5 {
        '5'
    } else if d == 6 {
        '6'
    } else if d == 7 {
        '7'
    } else if d == 8 {
        '8'
    } else if d == 9 {
        '9'
    } else if d == 10 {
        'a'
    } else if d == 11 {
        'b'
    } else if d == 12 {
        'c'
    } else if d == 13 {
        'd'
    } else if d == 14 {
        'e'
    } else {
        'f'
    }
}

/// Appends the hexadecimal numeral of `n`, filled with zeros on the left to
/// `width` digits.
pub fn push_hex(s: &mut String, n: u64, width: u32)
    ensures
        final(s)@ == old(s)@ + hex(n as nat, width as nat),
    decreases n + width,
{
    if !(n < 16 && width <= 1) {
        push_hex(s, n / 16, if width > 0 {
            width - 1
        } else {
            0
        });
    }
    push_char(s, hex_digit_of(n % 16));
}

/// Finds the place of a symbol with the address `value` among `sorted`.
fn find_place(sorted: &Vec<Symbol>, value: u64) -> (r: usize)
    ensures
        r == place_for(symbol_views(sorted@), value),
        r <= sorted@.len(),
{
    let ghost all = symbol_views(sorted@);
    let mut p = sorted.len();
    proof {
        assert(all.take(p as int) =~= all);
    }
    while p > 0 && sorted[p - 1].value > value
        invariant
            p <= sorted@.len(),
            all == symbol_views(sorted@),
            place_for(all.take(p as int), value) == place_for(all, value),
        decreases p,
    {
        proof {
            assert(all.take(p as int).drop_last() =~= all.take(p as int - 1));
            assert(all.take(p as int).last() == sorted@[p as int - 1]@);
        }
        p -= 1;
    }
    proof {
        if p > 0 {
            assert(all.take(p as int).last() == sorted@[p as int - 1]@);
        }
    }
    p
}

/// Puts symbols in the order of their addresses; symbols with the same
/// address keep their order.
pub fn sort_by_address(symbols: Vec<Symbol>) -> (r: Vec<Symbol>)
    ensures
        symbol_views(r@) == sorted_by_address(symbol_views(symbols@)),
{
    let ghost all = symbol_views(symbols@);
    let mut sorted: Vec<Symbol> = Vec::new();
    let mut i: usize = 0;
    proof {
        assert(symbol_views(sorted@) =~= sorted_by_address(all.take(0)));
    }
    while i < symbols.len()
        invariant
            i <= symbols@.len(),
            all == symbol_views(symbols@),
            symbol_views(sorted@) == sorted_by_address(all.take(i as int)),
        decreases symbols@.len() - i,
    {
        let symbol = Symbol { name: symbols[i].name.clone(), value: symbols[i].value };
        let place = find_place(&sorted, symbol.value);
        let ghost before = symbol_views(sorted@);
        sorted.insert(place, symbol);
        proof {
            assert(symbol_views(sorted@) =~= before.insert(place as int, symbol@));
            assert(all.take(i as int + 1).drop_last() =~= all.take(i as int));
            assert(all.take(i as int + 1).last() == symbols@[i as int]@);
        }
        i += 1;
    }
    proof {
        assert(all.take(symbols@.len() as int) =~= all);
    }
    sorted
}

impl View for ImportLibrary {
    type V = Seq<Entry>;

    closed spec fn view(&self) -> Seq<Entry> {
        entries_of(self.slots@)
    }
}

impl ImportLibrary {
    #[verifier::type_invariant]
    spec fn well_formed(self) -> bool {
        distinct(entries_of(self.slots@))
    }

    /// A library of the symbols `names`, none of which has an address yet.
    /// A name that is given twice counts once.
    pub fn new(names: &Vec<String>) -> (r: ImportLibrary)
        ensures
            r@ == with_symbols(Seq::empty(), crate::text::views(names@)),
            distinct(r@),
    {
        let mut slots: Vec<Slot> = Vec::new();
        let ghost all = crate::text::views(names@);
        let mut i: usize = 0;
        proof {
            assert(entries_of(slots@) =~= with_symbols(Seq::empty(), all.take(0)));
        }
        while i < names.len()
            invariant
                i <= names@.len(),
                all == crate::text::views(names@),
                distinct(entries_of(slots@)),
                entries_of(slots@) == with_symbols(Seq::empty(), all.take(i as int)),
            decreases names@.len() - i,
        {
            proof {
                assert(all.take(i as int + 1).drop_last() =~= all.take(i as int));
                assert(all.take(i as int + 1).last() == names@[i as int]@);
            }
            take_in(&mut slots, names[i].clone());
            i += 1;
        }
        proof {
            assert(all.take(names@.len() as int) =~= all);
        }
        ImportLibrary { slots }
    }

    /// Takes in the entry points that `symbols` mark: for each symbol whose
    /// name starts with the marker, the symbol that the rest of the name
    /// names, without an address.
    pub fn include_entry_points(self, symbols: &Vec<Symbol>) -> (r: ImportLibrary)
        ensures
            r@ == with_marked(self@, symbol_views(symbols@)),
            distinct(r@),
    {
        proof {
            use_type_invariant(&self);
        }
        let mut slots = self.slots;
        let ghost start = entries_of(slots@);
        let ghost all = symbol_views(symbols@);
        let mut i: usize = 0;
        proof {
            assert(all.take(0) =~= Seq::<SymbolView>::empty());
        }
        while i < symbols.len()
            invariant
                i <= symbols@.len(),
                all == symbol_views(symbols@),
                distinct(entries_of(slots@)),
                entries_of(slots@) == with_marked(start, all.take(i as int)),
            decreases symbols@.len() - i,
        {
            proof {
                assert(all.take(i as int + 1).drop_last() =~= all.take(i as int));
                assert(all.take(i as int + 1).last() == symbols@[i as int]@);
            }
            let name = chars_of(symbols[i].name.as_str());
            if starts_with_marker(&name) {
                let prefix_len = chars_of("__acle_se_").len();
                let rest = string_of(
                    vstd::slice::slice_subrange(name.as_slice(), prefix_len, name.len()),
                );
                proof {
                    assert(rest@ =~= symbols@[i as int]@.name.skip(entry_prefix().len() as int));
                }
                take_in(&mut slots, rest);
            }
            i += 1;
        }
        proof {
            assert(all.take(symbols@.len() as int) =~= all);
        }
        ImportLibrary { slots }
    }

    /// Takes in the addresses that `symbols` give to the symbols of the
    /// library, and hands back the names of those that had an address
    /// already: they are defined more than once.
    pub fn define(self, symbols: &Vec<Symbol>) -> (r: (ImportLibrary, Vec<String>))
        ensures
            r.0@ == with_definitions(self@, symbol_views(symbols@)),
            crate::text::views(r.1@) == redefinitions(self@, symbol_views(symbols@)),
            distinct(r.0@),
    {
        proof {
            use_type_invariant(&self);
        }
        let mut slots = self.slots;
        let mut again: Vec<String> = Vec::new();
        let ghost start = entries_of(slots@);
        let ghost all = symbol_views(symbols@);
        let mut i: usize = 0;
        proof {
            assert(all.take(0) =~= Seq::<SymbolView>::empty());
            assert(crate::text::views(again@) =~= Seq::<Seq<char>>::empty());
        }
        while i < symbols.len()
            invariant
                i <= symbols@.len(),
                all == symbol_views(symbols@),
                distinct(entries_of(slots@)),
                entries_of(slots@) == with_definitions(start, all.take(i as int)),
                crate::text::views(again@) == redefinitions(start, all.take(i as int)),
            decreases symbols@.len() - i,
        {
            proof {
                assert(all.take(i as int + 1).drop_last() =~= all.take(i as int));
                assert(all.take(i as int + 1).last() == symbols@[i as int]@);
            }
            let ghost before = entries_of(slots@);
            let at = find(&slots, &symbols[i].name);
            if at < slots.len() {
                proof {
                    lemma_index_from(before, symbols@[i as int]@.name, 0);
                    assert(before[at as int] == entry_of(slots@[at as int]));
                }
                if slots[at].address.is_some() {
                    crate::text::push_string(&mut again, symbols[i].name.clone());
                }
                slots.set(
                    at,
                    Slot { name: symbols[i].name.clone(), address: Some(symbols[i].value) },
                );
                proof {
                    assert(entries_of(slots@) =~= before.update(
                        at as int,
                        Entry {
                            name: symbols@[i as int]@.name,
                            address: Some(symbols@[i as int]@.value),
                        },
                    ));
                }
            }
            i += 1;
        }
        proof {
            assert(all.take(symbols@.len() as int) =~= all);
        }
        (ImportLibrary { slots }, again)
    }

    /// The symbols of the library in the order of their addresses, or, if
    /// some of them have none, the names of those.
    pub fn finish(self) -> (r: Result<Vec<Symbol>, Vec<String>>)
        ensures
            match r {
                Ok(symbols) => undefined(self@).len() == 0 && symbol_views(symbols@)
                    == sorted_by_address(defined(self@)),
                Err(names) => names@.len() > 0 && crate::text::views(names@) == undefined(self@),
            },
    {
        let ghost all = entries_of(self.slots@);
        let mut missing: Vec<String> = Vec::new();
        let mut found: Vec<Symbol> = Vec::new();
        let mut i: usize = 0;
        proof {
            assert(all.take(0) =~= Seq::<Entry>::empty());
            assert(crate::text::views(missing@) =~= Seq::<Seq<char>>::empty());
            assert(symbol_views(found@) =~= Seq::<SymbolView>::empty());
        }
        while i < self.slots.len()
            invariant
                i <= self.slots@.len(),
                all == entries_of(self.slots@),
                crate::text::views(missing@) == undefined(all.take(i as int)),
                symbol_views(found@) == defined(all.take(i as int)),
            decreases self.slots@.len() - i,
        {
            proof {
                assert(all.take(i as int + 1).drop_last() =~= all.take(i as int));
                assert(all.take(i as int + 1).last() == entry_of(self.slots@[i as int]));
            }
            match self.slots[i].address {
                Some(value) => {
                    let ghost before = symbol_views(found@);
                    let symbol = Symbol { name: self.slots[i].name.clone(), value };
                    found.push(symbol);
                    proof {
                        assert(symbol_views(found@) =~= before.push(symbol@));
                    }
                },
                None => {
                    crate::text::push_string(&mut missing, self.slots[i].name.clone());
                },
            }
            i += 1;
        }
        proof {
            assert(all.take(self.slots@.len() as int) =~= all);
        }
        if missing.len() > 0 {
            Err(missing)
        } else {
            Ok(sort_by_address(found))
        }
    }
}

/// Appends what the assembler file says of one symbol.
fn push_symbol(s: &mut String, symbol: &Symbol)
    ensures
        final(s)@ == old(s)@ + symbol_text(symbol@),
{
    s.append(".type ");
    s.append(symbol.name.as_str());
    s.append(" function\n.set ");
    s.append(symbol.name.as_str());
    s.append(", 0x");
    push_hex(s, symbol.value, 8);
    s.append("\n.global ");
    s.append(symbol.name.as_str());
    s.append("\n");
    proof {
        assert(s@ =~= old(s)@ + symbol_text(symbol@));
    }
}

/// Writes the assembler file that sets `symbols`, in their order.
pub fn render(symbols: &Vec<Symbol>) -> (r: String)
    ensures
        r@ == library_text(symbol_views(symbols@)),
{
    let ghost all = symbol_views(symbols@);
    let mut s = ".syntax unified\n".to_owned();
    let mut i: usize = 0;
    proof {
        assert(all.take(0) =~= Seq::<SymbolView>::empty());
        assert(s@ =~= ".syntax unified\n"@ + symbols_text(all.take(0)));
    }
    while i < symbols.len()
        invariant
            i <= symbols@.len(),
            all == symbol_views(symbols@),
            s@ == ".syntax unified\n"@ + symbols_text(all.take(i as int)),
        decreases symbols@.len() - i,
    {
        proof {
            assert(all.take(i as int + 1).drop_last() =~= all.take(i as int));
            assert(all.take(i as int + 1).last() == symbols@[i as int]@);
        }
        push_symbol(&mut s, &symbols[i]);
        proof {
            assert(s@ =~= ".syntax unified\n"@ + symbols_text(all.take(i as int + 1)));
        }
        i += 1;
    }
    proof {
        assert(all.take(symbols@.len() as int) =~= all);
    }
    s
}

} // verus!
