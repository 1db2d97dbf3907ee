//! The symbol table of an executable, as a lookup from code addresses to
//! symbol names.

use vstd::prelude::*;

verus! {

/// `object::SymbolMap`, the symbols of an object file ordered by address:
/// known by what [`symbol_extents`] and [`symbol_names`] say it holds.
#[verifier::external_type_specification]
#[verifier::external_body]
pub struct ExSymbolMap<'data>(object::SymbolMap<'data>);

/// The start address and the size of each symbol that a map holds, in the
/// map's own order.
pub uninterp spec fn symbol_extents(map: object::SymbolMap) -> Seq<(u64, u64)>;

/// The names that a map's lookup finds: at each address for which
/// `object::SymbolMap::get` finds a symbol that has a name, that name.
pub uninterp spec fn symbol_names(map: object::SymbolMap) -> Map<u64, Seq<char>>;

/// Whether the end of every symbol is an address: no start and size add up
/// beyond the address space.
pub open spec fn extents_fit(extents: Seq<(u64, u64)>) -> bool {
    forall|i: int| 0 <= i < extents.len() ==> (#[trigger] extents[i]).0 + extents[i].1 <= u64::MAX
}

/// Whether one of the symbols covers `address`.
pub open spec fn covered(extents: Seq<(u64, u64)>, address: u64) -> bool {
    exists|i: int|
        0 <= i < extents.len() && (#[trigger] extents[i]).0 <= address < extents[i].0
            + extents[i].1
}

/// The length of `object::SymbolMap::symbols`: how many symbols the map
/// holds.
#[verifier::external_body]
fn symbol_count(map: &object::SymbolMap) -> (count: usize)
    ensures
        count == symbol_extents(*map).len(),
{
    map.symbols().len()
}

/// `object::Symbol::address` and `object::Symbol::size` of the symbol at
/// `index` of `object::SymbolMap::symbols`.
#[verifier::external_body]
fn symbol_extent(map: &object::SymbolMap, index: usize) -> (extent: (u64, u64))
    requires
        index < symbol_extents(*map).len(),
    ensures
        extent == symbol_extents(*map)[index as int],
{
    let symbol = &map.symbols()[index];
    (symbol.address(), symbol.size())
}

/// `object::SymbolMap::get`, then `object::Symbol::name`: the name of the
/// symbol that the map finds for `address`. The lookup adds each symbol's
/// start and size, so these must fit. A symbol that it finds covers the
/// address.
#[verifier::external_body]
fn lookup_name(map: &object::SymbolMap, address: u64) -> (name: Option<String>)
    requires
        extents_fit(symbol_extents(*map)),
    ensures
        match name {
            Some(name) => symbol_names(*map).dom().contains(address) && symbol_names(
                *map,
            )[address] == name@,
            None => !symbol_names(*map).dom().contains(address),
        },
        name is Some ==> covered(symbol_extents(*map), address),
{
    map.get(address).and_then(|symbol| symbol.name()).map(String::from)
}

/// A symbol map whose every symbol ends within the address space, so that
/// any address can be looked up in it.
pub struct SymbolTable<'data> {
    map: object::SymbolMap<'data>,
}

impl<'data> SymbolTable<'data> {
    #[verifier::type_invariant]
    spec fn searchable(self) -> bool {
        extents_fit(symbol_extents(self.map))
    }

    /// The map that the table holds.
    pub closed spec fn map(self) -> object::SymbolMap<'data> {
        self.map
    }

    /// The name that the table gives to `address`, if any.
    pub open spec fn name_of(self, address: u64) -> Option<Seq<char>> {
        if symbol_names(self.map()).dom().contains(address) {
            Some(symbol_names(self.map())[address])
        } else {
            None
        }
    }

    /// The table over `map`, unless one of its symbols reaches beyond the
    /// address space.
    pub fn new(map: object::SymbolMap<'data>) -> (table: Option<SymbolTable<'data>>)
        ensures
            table is Some <==> extents_fit(symbol_extents(map)),
            table matches Some(t) ==> t.map() == map,
    {
        let count = symbol_count(&map);
        let mut index: usize = 0;
        while index < count
            invariant
                count == symbol_extents(map).len(),
                index <= count,
                forall|i: int|
                    0 <= i < index ==> (#[trigger] symbol_extents(map)[i]).0 + symbol_extents(
                        map,
                    )[i].1 <= u64::MAX,
            decreases count - index,
        {
            let (start, size) = symbol_extent(&map, index);
            if start.checked_add(size).is_none() {
                return None;
            }
            index += 1;
        }
        Some(SymbolTable { map })
    }

    /// The name of the symbol that the table finds for `address`. A symbol
    /// that is found covers the address.
    pub fn name_at(&self, address: u64) -> (name: Option<String>)
        ensures
            name.deep_view() == self.name_of(address),
            name is Some ==> covered(symbol_extents(self.map()), address),
    {
        proof {
            use_type_invariant(self);
        }
        lookup_name(&self.map, address)
    }
}

} // verus!
