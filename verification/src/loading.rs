//! Loading conditions: mass items and per-tank fill overrides.

use vstd::prelude::*;

use crate::fill::{
    clamp_unit, clamp_unit_spec, is_nan_bits, is_negative_bits, NEGATIVE_ZERO_BITS, ONE_BITS,
    ZERO_BITS,
};

verus! {

/// Category of a mass item, used for classification and reporting.
#[derive(Debug, Clone, Copy, PartialEq, Eq, Structural)]
pub enum MassCategory {
    /// Ship structure, machinery, and permanent equipment.
    Lightship,
    /// Variable loads: cargo, stores, crew, consumables, ballast, etc.
    Deadweight,
    /// Uncategorized mass item.
    Other,
}

impl MassCategory {
    /// The text under which the category is shown.
    pub open spec fn spec_label(self) -> Seq<char> {
        match self {
            MassCategory::Lightship => "Lightship"@,
            MassCategory::Deadweight => "Deadweight"@,
            MassCategory::Other => "Other"@,
        }
    }

    /// Returns the display text of the category.
    pub fn label(&self) -> (s: String)
        ensures
            s@ == self.spec_label(),
    {
        match self {
            MassCategory::Lightship => "Lightship".to_owned(),
            MassCategory::Deadweight => "Deadweight".to_owned(),
            MassCategory::Other => "Other".to_owned(),
        }
    }
}

impl Default for MassCategory {
    fn default() -> (c: Self)
        ensures
            c == MassCategory::Other,
    {
        MassCategory::Other
    }
}


/// A single mass item with name, mass, position, and category.
///
/// Represents one element of a loading condition's weight inventory
/// (lightship, crew, provisions, equipment). `mass` (kg) and `cog`
/// ([LCG, TCG, VCG] in metres) are binary64 bit patterns.
#[derive(Debug)]
pub struct MassItem {
    /// Name identifier for the mass item.
    pub name: String,
    /// Mass in kg (binary64 bit pattern).
    pub mass: u64,
    /// Center of gravity [LCG, TCG, VCG] in metres (binary64 bit patterns).
    pub cog: [u64; 3],
    /// Classification category.
    pub category: MassCategory,
}

impl Clone for MassItem {
    fn clone(&self) -> (item: Self)
        ensures
            item == *self,
    {
        MassItem {
            name: self.name.clone(),
            mass: self.mass,
            cog: self.cog,
            category: self.category,
        }
    }
}

impl MassItem {
    /// Creates a new mass item with the default category (`Other`).
    pub fn new(name: &str, mass: u64, cog: [u64; 3]) -> (item: Self)
        ensures
            item.name@ == name@,
            item.mass == mass,
            item.cog == cog,
            item.category == MassCategory::Other,
    {
        MassItem { name: name.to_owned(), mass, cog, category: MassCategory::Other }
    }

    /// Sets the category (builder pattern).
    pub fn with_category(self, category: MassCategory) -> (item: Self)
        ensures
            item.name == self.name,
            item.mass == self.mass,
            item.cog == self.cog,
            item.category == category,
    {
        let mut item = self;
        item.category = category;
        item
    }
}

/// A tank fill override: the tank's name and its fill level (a fraction
/// between 0 and 1, as a binary64 bit pattern).
#[derive(Debug)]
pub struct TankFill {
    /// Name of the tank the override applies to.
    pub tank_name: String,
    /// Fill level, clamped to `[0, 1]`.
    pub fill_level: u64,
}

impl Clone for TankFill {
    fn clone(&self) -> (entry: Self)
        ensures
            entry == *self,
    {
        TankFill { tank_name: self.tank_name.clone(), fill_level: self.fill_level }
    }
}

/// A fill level to give to the tank at `tank_index` of a vessel.
#[derive(Debug, Clone, Copy)]
pub struct TankUpdate {
    /// Position of the tank in the vessel's tank list.
    pub tank_index: usize,
    /// Fill level to set.
    pub fill_level: u64,
}

/// `i` is the first position of a mass item called `name` in `items`.
pub open spec fn is_first_mass_named(items: Seq<MassItem>, name: Seq<char>, i: int) -> bool {
    &&& 0 <= i < items.len()
    &&& items[i].name@ == name
    &&& forall|j: int| 0 <= j < i ==> items[j].name@ != name
}

/// `entries` lists exactly the overrides of `fills`, one entry per tank name.
pub open spec fn lists_overrides(entries: Seq<TankFill>, fills: Map<Seq<char>, u64>) -> bool {
    &&& entries.len() == fills.len()
    &&& forall|i: int, j: int|
        0 <= i < j < entries.len() ==> entries[i].tank_name@ != entries[j].tank_name@
    &&& forall|i: int|
        0 <= i < entries.len() ==> #[trigger] fills.contains_key(entries[i].tank_name@)
            && fills[entries[i].tank_name@] == entries[i].fill_level
    &&& forall|k: Seq<char>|
        #[trigger] fills.contains_key(k) ==> exists|i: int|
            0 <= i < entries.len() && entries[i].tank_name@ == k
}

/// The tank updates that carry the overrides `fills` to a vessel whose tanks
/// bear `tank_names`, in order: each update sets the first tank of an
/// overridden name to that name's level, and every overridden name that some
/// tank bears gets exactly one update.
pub open spec fn is_update_plan(
    updates: Seq<TankUpdate>,
    fills: Map<Seq<char>, u64>,
    tank_names: Seq<String>,
) -> bool {
    &&& forall|a: int|
        0 <= a < updates.len() ==> {
            let t = #[trigger] updates[a].tank_index as int;
            &&& crate::names::is_first_name(tank_names, tank_names[t]@, t)
            &&& fills.contains_key(tank_names[t]@)
            &&& fills[tank_names[t]@] == updates[a].fill_level
        }
    &&& forall|a: int, b: int|
        0 <= a < b < updates.len() ==> updates[a].tank_index != updates[b].tank_index
    &&& forall|k: Seq<char>|
        #[trigger] fills.contains_key(k) && crate::names::has_name(tank_names, k) ==> exists|a: int|
            0 <= a < updates.len() && tank_names[updates[a].tank_index as int]@ == k
}

/// The update `u` sets the first tank named as `entry` to `entry`'s level.
pub open spec fn update_matches(u: TankUpdate, entry: TankFill, tank_names: Seq<String>) -> bool {
    let t = u.tank_index as int;
    &&& crate::names::is_first_name(tank_names, tank_names[t]@, t)
    &&& tank_names[t]@ == entry.tank_name@
    &&& u.fill_level == entry.fill_level
}

/// No two entries of `entries` are for the same tank.
spec fn names_distinct(entries: Seq<TankFill>) -> bool {
    forall|i: int, j: int|
        0 <= i < j < entries.len() ==> entries[i].tank_name@ != entries[j].tank_name@
}

/// Some entry of `entries` is for the tank called `k`.
spec fn names_tank(entries: Seq<TankFill>, k: Seq<char>) -> bool {
    exists|i: int| 0 <= i < entries.len() && entries[i].tank_name@ == k
}

/// The overrides that `entries` set: each tank named by an entry, to the
/// level of that entry.
spec fn overrides_of(entries: Seq<TankFill>) -> Map<Seq<char>, u64> {
    Map::new(
        |k: Seq<char>| names_tank(entries, k),
        |k: Seq<char>|
            entries[choose|i: int| 0 <= i < entries.len() && entries[i].tank_name@ == k].fill_level,
    )
}

/// With distinct names, the override of the tank of entry `i` is that
/// entry's level.
proof fn lemma_entry_at(entries: Seq<TankFill>, i: int)
    requires
        names_distinct(entries),
        0 <= i < entries.len(),
    ensures
        overrides_of(entries).contains_key(entries[i].tank_name@),
        overrides_of(entries)[entries[i].tank_name@] == entries[i].fill_level,
{
    let k = entries[i].tank_name@;
    assert(names_tank(entries, k));
    let j = choose|j: int| 0 <= j < entries.len() && entries[j].tank_name@ == k;
    if j < i {
        assert(entries[j].tank_name@ != entries[i].tank_name@);
    }
    if i < j {
        assert(entries[i].tank_name@ != entries[j].tank_name@);
    }
}

/// Entries with distinct names list exactly the overrides they set.
proof fn lemma_lists_overrides(entries: Seq<TankFill>)
    requires
        names_distinct(entries),
    ensures
        overrides_of(entries).dom().finite(),
        lists_overrides(entries, overrides_of(entries)),
{
    let names = Seq::new(entries.len(), |i: int| entries[i].tank_name@);
    assert forall|i: int, j: int|
        0 <= i < names.len() && 0 <= j < names.len() && i != j implies names[i] != names[j] by {
        if i < j {
            assert(entries[i].tank_name@ != entries[j].tank_name@);
        } else {
            assert(entries[j].tank_name@ != entries[i].tank_name@);
        }
    }
    assert forall|k: Seq<char>|
        overrides_of(entries).dom().contains(k) <==> names.to_set().contains(k) by {
        if names_tank(entries, k) {
            let i = choose|i: int| 0 <= i < entries.len() && entries[i].tank_name@ == k;
            assert(names[i] == k);
        }
        if names.contains(k) {
            let i = choose|i: int| 0 <= i < names.len() && names[i] == k;
            assert(entries[i].tank_name@ == k);
        }
    }
    assert(overrides_of(entries).dom() =~= names.to_set());
    names.unique_seq_to_set();
    vstd::seq_lib::seq_to_set_is_finite(names);
    assert forall|i: int| 0 <= i < entries.len() implies #[trigger] overrides_of(
        entries,
    ).contains_key(entries[i].tank_name@) && overrides_of(entries)[entries[i].tank_name@]
        == entries[i].fill_level by {
        lemma_entry_at(entries, i);
    }
}

/// Replacing entry `i` by an entry for the same tank sets that tank's
/// override to the new level.
proof fn lemma_overrides_update(entries: Seq<TankFill>, i: int, entry: TankFill)
    requires
        names_distinct(entries),
        0 <= i < entries.len(),
        entries[i].tank_name@ == entry.tank_name@,
    ensures
        names_distinct(entries.update(i, entry)),
        overrides_of(entries.update(i, entry)) == overrides_of(entries).insert(
            entry.tank_name@,
            entry.fill_level,
        ),
{
    let new = entries.update(i, entry);
    let m = overrides_of(entries).insert(entry.tank_name@, entry.fill_level);
    assert forall|a: int, b: int| 0 <= a < b < new.len() implies new[a].tank_name@
        != new[b].tank_name@ by {
        assert(new[a].tank_name@ == entries[a].tank_name@);
        assert(new[b].tank_name@ == entries[b].tank_name@);
    }
    assert forall|k: Seq<char>| names_tank(new, k) <==> #[trigger] m.contains_key(k) by {
        if names_tank(new, k) {
            let a = choose|a: int| 0 <= a < new.len() && new[a].tank_name@ == k;
            assert(entries[a].tank_name@ == k);
        }
        if names_tank(entries, k) {
            let a = choose|a: int| 0 <= a < entries.len() && entries[a].tank_name@ == k;
            assert(new[a].tank_name@ == k);
        }
        if k == entry.tank_name@ {
            assert(new[i].tank_name@ == k);
        }
    }
    assert forall|k: Seq<char>| #[trigger] m.contains_key(k) implies overrides_of(new)[k] == m[k] by {
        let a = choose|a: int| 0 <= a < new.len() && new[a].tank_name@ == k;
        lemma_entry_at(new, a);
        if k != entry.tank_name@ {
            assert(a != i);
            lemma_entry_at(entries, a);
        }
    }
    assert(overrides_of(new) =~= m);
}

/// Appending an entry for a tank without one sets that tank's override.
proof fn lemma_overrides_push(entries: Seq<TankFill>, entry: TankFill)
    requires
        names_distinct(entries),
        !names_tank(entries, entry.tank_name@),
    ensures
        names_distinct(entries.push(entry)),
        overrides_of(entries.push(entry)) == overrides_of(entries).insert(
            entry.tank_name@,
            entry.fill_level,
        ),
{
    let new = entries.push(entry);
    let last = entries.len() as int;
    let m = overrides_of(entries).insert(entry.tank_name@, entry.fill_level);
    assert forall|a: int, b: int| 0 <= a < b < new.len() implies new[a].tank_name@
        != new[b].tank_name@ by {
        assert(new[a] == entries[a]);
        if b == last {
            assert(entries[a].tank_name@ != entry.tank_name@);
        } else {
            assert(new[b] == entries[b]);
        }
    }
    assert forall|k: Seq<char>| names_tank(new, k) <==> #[trigger] m.contains_key(k) by {
        if names_tank(new, k) {
            let a = choose|a: int| 0 <= a < new.len() && new[a].tank_name@ == k;
            if a < last {
                assert(entries[a].tank_name@ == k);
            }
        }
        if names_tank(entries, k) {
            let a = choose|a: int| 0 <= a < entries.len() && entries[a].tank_name@ == k;
            assert(new[a].tank_name@ == k);
        }
        if k == entry.tank_name@ {
            assert(new[last].tank_name@ == k);
        }
    }
    assert forall|k: Seq<char>| #[trigger] m.contains_key(k) implies overrides_of(new)[k] == m[k] by {
        let a = choose|a: int| 0 <= a < new.len() && new[a].tank_name@ == k;
        lemma_entry_at(new, a);
        if k != entry.tank_name@ {
            assert(a != last);
            assert(new[a] == entries[a]);
            lemma_entry_at(entries, a);
        }
    }
    assert(overrides_of(new) =~= m);
}

/// Removing entry `i` removes the override of its tank and no other.
proof fn lemma_overrides_remove(entries: Seq<TankFill>, i: int)
    requires
        names_distinct(entries),
        0 <= i < entries.len(),
    ensures
        names_distinct(entries.remove(i)),
        overrides_of(entries.remove(i)) == overrides_of(entries).remove(entries[i].tank_name@),
{
    let new = entries.remove(i);
    let gone = entries[i].tank_name@;
    let m = overrides_of(entries).remove(gone);
    assert forall|a: int, b: int| 0 <= a < b < new.len() implies new[a].tank_name@
        != new[b].tank_name@ by {
        let oa = if a < i { a } else { a + 1 };
        let ob = if b < i { b } else { b + 1 };
        assert(new[a] == entries[oa]);
        assert(new[b] == entries[ob]);
    }
    assert forall|k: Seq<char>| names_tank(new, k) <==> #[trigger] m.contains_key(k) by {
        if names_tank(new, k) {
            let a = choose|a: int| 0 <= a < new.len() && new[a].tank_name@ == k;
            let oa = if a < i { a } else { a + 1 };
            assert(new[a] == entries[oa]);
            if oa < i {
                assert(entries[oa].tank_name@ != entries[i].tank_name@);
            } else {
                assert(entries[i].tank_name@ != entries[oa].tank_name@);
            }
        }
        if m.contains_key(k) {
            let oa = choose|a: int| 0 <= a < entries.len() && entries[a].tank_name@ == k;
            assert(oa != i);
            let a = if oa < i { oa } else { oa - 1 };
            assert(new[a] == entries[oa]);
        }
    }
    assert forall|k: Seq<char>| #[trigger] m.contains_key(k) implies overrides_of(new)[k] == m[k] by {
        let a = choose|a: int| 0 <= a < new.len() && new[a].tank_name@ == k;
        let oa = if a < i { a } else { a + 1 };
        assert(new[a] == entries[oa]);
        lemma_entry_at(new, a);
        lemma_entry_at(entries, oa);
    }
    assert(overrides_of(new) =~= m);
}

/// The tank fill overrides, one entry per tank name.
#[derive(Debug)]
struct FillTable {
    entries: Vec<TankFill>,
}

impl FillTable {
    /// The overrides the table sets.
    spec fn overrides(&self) -> Map<Seq<char>, u64> {
        overrides_of(self.entries@)
    }

    /// No tank has two entries.
    spec fn wf(&self) -> bool {
        names_distinct(self.entries@)
    }

    fn empty() -> (t: Self)
        ensures
            t.wf(),
            t.overrides() == Map::<Seq<char>, u64>::empty(),
    {
        let t = FillTable { entries: Vec::new() };
        assert(t.overrides() =~= Map::<Seq<char>, u64>::empty());
        t
    }

    /// A copy of the table, with the same entries.
    fn duplicate(&self) -> (t: Self)
        ensures
            t.entries@ == self.entries@,
    {
        let entries = self.entries.clone();
        assert(entries@ =~= self.entries@);
        FillTable { entries }
    }

    /// Position of the override entry for `name`, if there is one.
    fn position(&self, name: &String) -> (r: Option<usize>)
        ensures
            match r {
                Some(i) => i < self.entries@.len() && self.entries@[i as int].tank_name@
                    == name@,
                None => !self.overrides().contains_key(name@),
            },
    {
        let mut i: usize = 0;
        while i < self.entries.len()
            invariant
                i <= self.entries@.len(),
                forall|j: int| 0 <= j < i ==> self.entries@[j].tank_name@ != name@,
            decreases self.entries@.len() - i,
        {
            if self.entries[i].tank_name == *name {
                return Some(i);
            }
            i = i + 1;
        }
        None
    }

    /// Sets the entry for `key` to `level`, replacing any entry of that name.
    fn insert(&mut self, key: String, level: u64)
        requires
            old(self).wf(),
        ensures
            final(self).wf(),
            final(self).overrides() == old(self).overrides().insert(key@, level),
    {
        match self.position(&key) {
            Some(i) => {
                let entry = TankFill { tank_name: key, fill_level: level };
                proof {
                    lemma_overrides_update(self.entries@, i as int, entry);
                }
                self.entries.set(i, entry);
            },
            None => {
                let entry = TankFill { tank_name: key, fill_level: level };
                proof {
                    lemma_overrides_push(self.entries@, entry);
                }
                self.entries.push(entry);
            },
        }
    }

    /// Removes the entry for `key`; returns whether there was one.
    fn remove(&mut self, key: &String) -> (existed: bool)
        requires
            old(self).wf(),
        ensures
            final(self).wf(),
            existed == old(self).overrides().contains_key(key@),
            final(self).overrides() == old(self).overrides().remove(key@),
    {
        match self.position(key) {
            Some(i) => {
                proof {
                    assert(names_tank(self.entries@, key@));
                    lemma_overrides_remove(self.entries@, i as int);
                }
                self.entries.remove(i);
                true
            },
            None => {
                assert(self.overrides().remove(key@) =~= self.overrides());
                false
            },
        }
    }
}

/// A complete loading condition.
///
/// Groups mass items and tank fill overrides into one configuration that can
/// be applied to a vessel for hydrostatic and stability calculations. Only
/// tanks named in the overrides have their fill level changed when the
/// condition is applied; other tanks keep their current state.
#[derive(Debug)]
pub struct LoadingCondition {
    /// Name of the loading condition.
    name: String,
    /// Mass items, in the order they were added.
    masses: Vec<MassItem>,
    /// Tank fill overrides.
    fills: FillTable,
}

impl Clone for LoadingCondition {
    /// A copy with the same name, mass items and overrides.
    fn clone(&self) -> (lc: Self)
        ensures
            lc.name_text() == self.name_text(),
            lc.mass_items() == self.mass_items(),
            lc.fill_overrides() == self.fill_overrides(),
    {
        proof {
            use_type_invariant(self);
        }
        let masses = self.masses.clone();
        assert(masses@ =~= self.masses@);
        LoadingCondition { name: self.name.clone(), masses, fills: self.fills.duplicate() }
    }
}

impl LoadingCondition {
    /// No tank has two override entries.
    #[verifier::type_invariant]
    spec fn wf(self) -> bool {
        self.fills.wf()
    }

    /// The name of the loading condition.
    pub closed spec fn name_text(&self) -> Seq<char> {
        self.name@
    }

    /// The mass items, in order.
    pub closed spec fn mass_items(&self) -> Seq<MassItem> {
        self.masses@
    }

    /// The tank fill overrides, from tank name to fill level.
    pub closed spec fn fill_overrides(&self) -> Map<Seq<char>, u64> {
        self.fills.overrides()
    }

    /// Creates a new empty loading condition.
    pub fn new(name: &str) -> (lc: Self)
        ensures
            lc.name_text() == name@,
            lc.mass_items() == Seq::<MassItem>::empty(),
            lc.fill_overrides() == Map::<Seq<char>, u64>::empty(),
    {
        LoadingCondition {
            name: name.to_owned(),
            masses: Vec::new(),
            fills: FillTable::empty(),
        }
    }

    /// Returns the name of the loading condition.
    pub fn name(&self) -> (r: &str)
        ensures
            r@ == self.name_text(),
    {
        self.name.as_str()
    }

    /// Sets the name of the loading condition.
    pub fn set_name(&mut self, name: &str)
        ensures
            final(self).name_text() == name@,
            final(self).mass_items() == old(self).mass_items(),
            final(self).fill_overrides() == old(self).fill_overrides(),
    {
        proof {
            use_type_invariant(&*self);
        }
        self.name = name.to_owned();
    }

    /// Adds a mass item to the loading condition.
    pub fn add_mass(&mut self, item: MassItem)
        ensures
            final(self).name_text() == old(self).name_text(),
            final(self).mass_items() == old(self).mass_items().push(item),
            final(self).fill_overrides() == old(self).fill_overrides(),
    {
        proof {
            use_type_invariant(&*self);
        }
        let mut masses = Vec::new();
        std::mem::swap(&mut masses, &mut self.masses);
        masses.push(item);
        self.masses = masses;
    }

    /// Adds a mass item with name, mass and cog (category `Other`).
    pub fn add_mass_simple(&mut self, name: &str, mass: u64, cog: [u64; 3])
        ensures
            final(self).name_text() == old(self).name_text(),
            final(self).mass_items().len() == old(self).mass_items().len() + 1,
            final(self).mass_items().drop_last() == old(self).mass_items(),
            final(self).mass_items().last().name@ == name@,
            final(self).mass_items().last().mass == mass,
            final(self).mass_items().last().cog == cog,
            final(self).mass_items().last().category == MassCategory::Other,
            final(self).fill_overrides() == old(self).fill_overrides(),
    {
        proof {
            use_type_invariant(&*self);
        }
        let item = MassItem::new(name, mass, cog);
        let mut masses = Vec::new();
        std::mem::swap(&mut masses, &mut self.masses);
        masses.push(item);
        self.masses = masses;
        assert(self.masses@.drop_last() =~= old(self).masses@);
    }

    /// Removes the first mass item with the given name.
    /// Returns true if a mass was removed, false if none has that name.
    pub fn remove_mass(&mut self, name: &str) -> (removed: bool)
        ensures
            final(self).name_text() == old(self).name_text(),
            final(self).fill_overrides() == old(self).fill_overrides(),
            removed == exists|i: int|
                0 <= i < old(self).mass_items().len() && old(self).mass_items()[i].name@ == name@,
            removed ==> exists|i: int|
                is_first_mass_named(old(self).mass_items(), name@, i)
                    && final(self).mass_items() == old(self).mass_items().remove(i),
            !removed ==> final(self).mass_items() == old(self).mass_items(),
    {
        proof {
            use_type_invariant(&*self);
        }
        let key = name.to_owned();
        let mut i: usize = 0;
        while i < self.masses.len()
            invariant
                i <= self.masses@.len(),
                key@ == name@,
                self.masses@ == old(self).masses@,
                self.fills == old(self).fills,
                self.fills.wf(),
                self.name == old(self).name,
                forall|j: int| 0 <= j < i ==> self.masses@[j].name@ != name@,
            decreases self.masses@.len() - i,
        {
            if self.masses[i].name == key {
                assert(is_first_mass_named(old(self).masses@, name@, i as int));
                let mut masses = Vec::new();
                std::mem::swap(&mut masses, &mut self.masses);
                masses.remove(i);
                self.masses = masses;
                return true;
            }
            i = i + 1;
        }
        false
    }

    /// Returns the list of mass items.
    pub fn masses(&self) -> (items: &[MassItem])
        ensures
            items@ == self.mass_items(),
    {
        self.masses.as_slice()
    }

    /// Returns the number of mass items.
    pub fn num_masses(&self) -> (n: usize)
        ensures
            n == self.mass_items().len(),
    {
        self.masses.len()
    }

    /// Sets a tank fill override by fill level, clamped to `[0, 1]`.
    pub fn set_tank_fill(&mut self, tank_name: &str, fill_level: u64)
        ensures
            final(self).name_text() == old(self).name_text(),
            final(self).mass_items() == old(self).mass_items(),
            final(self).fill_overrides() == old(self).fill_overrides().insert(
                tank_name@,
                clamp_unit_spec(fill_level),
            ),
            final(self).fill_overrides().contains_key(tank_name@),
            !is_negative_bits(fill_level) && fill_level <= ONE_BITS
                ==> final(self).fill_overrides()[tank_name@] == fill_level,
            !is_nan_bits(fill_level) && !is_negative_bits(fill_level) && fill_level > ONE_BITS
                ==> final(self).fill_overrides()[tank_name@] == ONE_BITS,
            !is_nan_bits(fill_level) && is_negative_bits(fill_level) && fill_level
                != NEGATIVE_ZERO_BITS ==> final(self).fill_overrides()[tank_name@] == ZERO_BITS,
    {
        self.store_tank_fill(tank_name, clamp_unit(fill_level));
    }

    /// Sets a tank fill override to `fill_level` as it is, for a condition
    /// read back from storage, whose levels were clamped when first set.
    pub fn restore_tank_fill(&mut self, tank_name: &str, fill_level: u64)
        ensures
            final(self).name_text() == old(self).name_text(),
            final(self).mass_items() == old(self).mass_items(),
            final(self).fill_overrides() == old(self).fill_overrides().insert(tank_name@, fill_level),
    {
        self.store_tank_fill(tank_name, fill_level);
    }

    /// Sets the override for `tank_name` to `level`.
    fn store_tank_fill(&mut self, tank_name: &str, level: u64)
        ensures
            final(self).name_text() == old(self).name_text(),
            final(self).mass_items() == old(self).mass_items(),
            final(self).fill_overrides() == old(self).fill_overrides().insert(tank_name@, level),
    {
        proof {
            use_type_invariant(&*self);
        }
        let mut table = FillTable::empty();
        std::mem::swap(&mut table, &mut self.fills);
        table.insert(tank_name.to_owned(), level);
        self.fills = table;
    }

    /// Removes a tank fill override.
    /// Returns true if the override existed, false otherwise.
    pub fn remove_tank_fill(&mut self, tank_name: &str) -> (existed: bool)
        ensures
            final(self).name_text() == old(self).name_text(),
            final(self).mass_items() == old(self).mass_items(),
            existed == old(self).fill_overrides().contains_key(tank_name@),
            final(self).fill_overrides() == old(self).fill_overrides().remove(tank_name@),
    {
        proof {
            use_type_invariant(&*self);
        }
        let mut table = FillTable::empty();
        std::mem::swap(&mut table, &mut self.fills);
        let existed = table.remove(&tank_name.to_owned());
        self.fills = table;
        existed
    }

    /// Returns the tank fill overrides, one entry per tank name.
    pub fn tank_fills(&self) -> (entries: &[TankFill])
        ensures
            lists_overrides(entries@, self.fill_overrides()),
    {
        proof {
            use_type_invariant(self);
            lemma_lists_overrides(self.fills.entries@);
        }
        self.fills.entries.as_slice()
    }

    /// Returns the number of tank fill overrides.
    pub fn num_tank_overrides(&self) -> (n: usize)
        ensures
            n == self.fill_overrides().len(),
    {
        proof {
            use_type_invariant(self);
            lemma_lists_overrides(self.fills.entries@);
        }
        self.fills.entries.len()
    }

    /// The fill-level updates that applying this condition makes to a vessel
    /// whose tanks bear `tank_names`, in order: the first tank of each
    /// overridden name gets that name's level; no other tank is touched.
    pub fn apply(&self, tank_names: &[String]) -> (updates: Vec<TankUpdate>)
        ensures
            is_update_plan(updates@, self.fill_overrides(), tank_names@),
    {
        proof {
            use_type_invariant(self);
            lemma_lists_overrides(self.fills.entries@);
        }
        let mut updates: Vec<TankUpdate> = Vec::new();
        let ghost mut sources: Seq<int> = Seq::empty();
        let mut m: usize = 0;
        while m < self.fills.entries.len()
            invariant
                self.fills.wf(),
                lists_overrides(self.fills.entries@, self.fills.overrides()),
                m <= self.fills.entries@.len(),
                sources.len() == updates@.len(),
                forall|a: int| 0 <= a < sources.len() ==> 0 <= #[trigger] sources[a] < m,
                forall|a: int|
                    0 <= a < updates@.len() ==> update_matches(
                        #[trigger] updates@[a],
                        self.fills.entries@[sources[a]],
                        tank_names@,
                    ),
                forall|a: int, b: int| 0 <= a < b < updates@.len() ==> sources[a] < sources[b],
                forall|n: int|
                    0 <= n < m && crate::names::has_name(
                        tank_names@,
                        #[trigger] self.fills.entries@[n].tank_name@,
                    ) ==> exists|a: int|
                        0 <= a < updates@.len() && tank_names@[updates@[a].tank_index as int]@
                            == self.fills.entries@[n].tank_name@,
            decreases self.fills.entries@.len() - m,
        {
            let entry = &self.fills.entries[m];
            let ghost before = updates@;
            let ghost old_sources = sources;
            match crate::names::position_of_name(tank_names, entry.tank_name.as_str()) {
                Some(t) => {
                    updates.push(TankUpdate { tank_index: t, fill_level: entry.fill_level });
                    proof {
                        sources = sources.push(m as int);
                        assert forall|a: int| 0 <= a < sources.len() implies 0 <= #[trigger] sources[a] < m + 1 by {
                            if a < old_sources.len() {
                                assert(old_sources[a] < m);
                            }
                        }
                        assert forall|a: int|
                            0 <= a < updates@.len() implies update_matches(
                            #[trigger] updates@[a],
                            self.fills.entries@[sources[a]],
                            tank_names@,
                        ) by {
                            if a == before.len() {
                                assert(updates@[a].tank_index == t);
                                assert(sources[a] == m);
                                assert(self.fills.entries@[sources[a]] == *entry);
                            } else {
                                assert(updates@[a] == before[a]);
                                assert(sources[a] == old_sources[a]);
                                assert(update_matches(before[a], self.fills.entries@[old_sources[a]], tank_names@));
                            }
                        }
                        assert forall|n: int|
                            0 <= n < m + 1 && crate::names::has_name(
                                tank_names@,
                                #[trigger] self.fills.entries@[n].tank_name@,
                            ) implies exists|a: int|
                            0 <= a < updates@.len() && tank_names@[updates@[a].tank_index as int]@
                                == self.fills.entries@[n].tank_name@ by {
                            if n == m {
                                let a = before.len() as int;
                                assert(updates@[a].tank_index == t);
                            } else {
                                let a = choose|a: int|
                                    0 <= a < before.len() && tank_names@[before[a].tank_index as int]@
                                        == self.fills.entries@[n].tank_name@;
                                assert(updates@[a] == before[a]);
                            }
                        }
                        assert forall|a: int, b: int|
                            0 <= a < b < updates@.len() implies sources[a] < sources[b] by {
                            assert(sources[a] == old_sources[a]);
                            assert(old_sources[a] < m);
                            if b < before.len() {
                                assert(sources[b] == old_sources[b]);
                            }
                        }
                    }
                },
                None => {
                    assert forall|a: int| 0 <= a < sources.len() implies 0 <= #[trigger] sources[a] < m + 1 by {
                        assert(sources[a] < m);
                    }
                },
            }
            m = m + 1;
        }
        assert forall|a: int, b: int|
            0 <= a < b < updates@.len() implies updates@[a].tank_index
            != updates@[b].tank_index by {
            assert(sources[a] < sources[b]);
        }
        assert forall|k: Seq<char>|
            #[trigger] self.fills.overrides().contains_key(k) && crate::names::has_name(
                tank_names@,
                k,
            ) implies exists|a: int|
            0 <= a < updates@.len() && tank_names@[updates@[a].tank_index as int]@ == k by {
            let n = choose|n: int|
                0 <= n < self.fills.entries@.len() && self.fills.entries@[n].tank_name@ == k;
            assert(crate::names::has_name(tank_names@, self.fills.entries@[n].tank_name@));
        }
        updates
    }
}

/// Adding a mass item and then removing the first item of its name reports a
/// removal: an item of that name is then present.
pub proof fn added_mass_is_removable(items: Seq<MassItem>, item: MassItem)
    ensures
        exists|i: int| 0 <= i < items.push(item).len() && items.push(item)[i].name@ == item.name@,
{
    assert(items.push(item)[items.len() as int].name@ == item.name@);
}

/// Setting an override and then removing it leaves the overrides as removing
/// it alone would: the other tanks' overrides are untouched by both.
pub proof fn override_set_then_removed(fills: Map<Seq<char>, u64>, name: Seq<char>, level: u64)
    ensures
        fills.insert(name, clamp_unit_spec(level)).remove(name) == fills.remove(name),
        fills.insert(name, clamp_unit_spec(level)).contains_key(name),
        fills.insert(name, clamp_unit_spec(level))[name] == clamp_unit_spec(level),
        forall|k: Seq<char>|
            k != name ==> (#[trigger] fills.insert(name, clamp_unit_spec(level)).contains_key(k)
                == fills.contains_key(k)),
{
    assert(fills.insert(name, clamp_unit_spec(level)).remove(name) =~= fills.remove(name));
}

} // verus!
