//! The unit registry: every spelling of every unit, with the unit it names.
//!
//! The registry is built once and then only read. Its entries are kept with
//! the longest spellings first, so that the first spelling found at the head
//! of a text is the longest one there.

use crate::unit::{lemma_spellings_nonempty, Force, Length, Mass, Prefix, Scale, Time, Unit, UnitRef};
use vstd::prelude::*;

verus! {

/// One spelling of one unit.
#[derive(Debug)]
struct Entry {
    spelling: String,
    unit: UnitRef,
}

/// What a registry holds: spellings with their units, in the order in which
/// they are tried.
pub type Entries = Seq<(Seq<char>, UnitRef)>;

/// No spelling is empty, none comes before a longer one, and none occurs twice.
pub open spec fn well_formed(entries: Entries) -> bool {
    &&& forall|i: int| 0 <= i < entries.len() ==> (#[trigger] entries[i]).0.len() > 0
    &&& forall|i: int, j: int|
        0 <= i < j < entries.len() ==> (#[trigger] entries[i]).0.len() >= (#[trigger] entries[j]).0.len()
    &&& forall|i: int, j: int|
        0 <= i < j < entries.len() ==> (#[trigger] entries[i]).0 != (#[trigger] entries[j]).0
}

/// Whether `token` is one of the spellings.
pub open spec fn has_key(entries: Entries, token: Seq<char>) -> bool {
    exists|i: int| 0 <= i < entries.len() && (#[trigger] entries[i]).0 == token
}

/// The unit that `token` names, if it names one.
pub open spec fn unit_of(entries: Entries, token: Seq<char>) -> Option<UnitRef> {
    if has_key(entries, token) {
        Some(entries[choose|i: int| 0 <= i < entries.len() && (#[trigger] entries[i]).0 == token].1)
    } else {
        None
    }
}

/// Where a spelling of `len` characters goes: behind every spelling that is
/// at least as long.
pub open spec fn slot(entries: Entries, len: nat, from: int) -> int
    decreases entries.len() - from,
{
    if 0 <= from < entries.len() && entries[from].0.len() >= len {
        slot(entries, len, from + 1)
    } else {
        from
    }
}

/// Whether `token` is a spelling of `unit` in the catalog: its name, its
/// abbreviation or its display symbol.
pub open spec fn spelled(unit: UnitRef, token: Seq<char>) -> bool {
    token == unit.spec_name() || token == unit.spec_abbrev() || token == unit.spec_symbol()
}

/// Whether `token` is a spelling of some unit of the catalog.
pub open spec fn in_catalog(token: Seq<char>) -> bool {
    exists|unit: UnitRef| spelled(unit, token)
}

/// The position of a unit's mark in the order in which the catalog is filled.
pub open spec fn scale_rank(scale: Scale) -> int {
    match scale {
        Scale::base => 0,
        Scale::prefixed(p) => 1 + p.spec_index(),
        Scale::other(k) => 1 + Prefix::COUNT + k,
    }
}

/// The immutable map from unit spellings to units.
#[derive(Debug)]
pub struct Registry {
    entries: Vec<Entry>,
}

impl View for Registry {
    type V = Entries;

    closed spec fn view(&self) -> Entries {
        Seq::new(self.entries@.len(), |i: int| (self.entries@[i].spelling@, self.entries@[i].unit))
    }
}

impl Clone for Registry {
    fn clone(&self) -> (r: Registry)
        ensures
            r@ == self@,
    {
        proof {
            use_type_invariant(self);
        }
        let mut entries: Vec<Entry> = Vec::new();
        let mut i: usize = 0;
        while i < self.entries.len()
            invariant
                i <= self.entries@.len(),
                entries@.len() == i,
                forall|j: int|
                    0 <= j < i ==> (#[trigger] entries@[j]).spelling@ == self.entries@[j].spelling@
                        && entries@[j].unit == self.entries@[j].unit,
            decreases self.entries@.len() - i,
        {
            let entry = &self.entries[i];
            entries.push(Entry { spelling: entry.spelling.clone(), unit: entry.unit });
            i += 1;
        }
        assert(Seq::new(entries@.len(), |i: int| (entries@[i].spelling@, entries@[i].unit)) =~= self@);
        Registry { entries }
    }
}

impl Registry {
    #[verifier::type_invariant]
    spec fn inv(self) -> bool {
        well_formed(self@)
    }

    /// A registry without entries.
    pub fn new() -> (r: Registry)
        ensures
            r@.len() == 0,
    {
        Registry { entries: Vec::new() }
    }

    /// The number of spellings. Every registry is well formed.
    pub fn len(&self) -> (n: usize)
        ensures
            n == self@.len(),
            well_formed(self@),
    {
        proof {
            use_type_invariant(self);
        }
        self.entries.len()
    }

    /// The spelling at position `i`.
    pub fn key(&self, i: usize) -> (k: &str)
        requires
            i < self@.len(),
        ensures
            k@ == self@[i as int].0,
    {
        self.entries[i].spelling.as_str()
    }

    /// The unit at position `i`.
    pub fn unit(&self, i: usize) -> (u: UnitRef)
        requires
            i < self@.len(),
        ensures
            u == self@[i as int].1,
    {
        self.entries[i].unit
    }

    /// The position of `token` among the spellings.
    fn position(&self, token: &str) -> (r: Option<usize>)
        ensures
            match r {
                Some(i) => i < self@.len() && self@[i as int].0 == token@,
                None => !has_key(self@, token@),
            },
    {
        let wanted = String::from_str(token);
        let mut i: usize = 0;
        while i < self.entries.len()
            invariant
                i <= self.entries@.len(),
                wanted@ == token@,
                forall|j: int| 0 <= j < i ==> (#[trigger] self@[j]).0 != token@,
            decreases self.entries@.len() - i,
        {
            if self.entries[i].spelling == wanted {
                return Some(i);
            }
            i += 1;
        }
        None
    }

    /// The unit that `token` names, if it is a spelling of the registry.
    pub fn lookup(&self, token: &str) -> (r: Option<UnitRef>)
        ensures
            r == unit_of(self@, token@),
    {
        proof {
            use_type_invariant(self);
        }
        match self.position(token) {
            Some(i) => {
                proof {
                    let k = choose|k: int| 0 <= k < self@.len() && (#[trigger] self@[k]).0 == token@;
                    assert(k == i) by {
                        if k < i {
                            assert(self@[k].0 != self@[i as int].0);
                        } else if i < k {
                            assert(self@[i as int].0 != self@[k].0);
                        }
                    }
                }
                Some(self.entries[i].unit)
            },
            None => None,
        }
    }

    /// Whether `token` is a spelling of the registry.
    pub fn is_unit(&self, token: &str) -> (r: bool)
        ensures
            r == has_key(self@, token@),
    {
        self.position(token).is_some()
    }

    /// The registry with one more spelling for `unit`, put behind the
    /// spellings that are at least as long. An empty spelling, or one that the
    /// registry has, is not added.
    pub fn insert(self, spelling: &str, unit: UnitRef) -> (r: Registry)
        ensures
            r@ == if spelling@.len() > 0 && !has_key(self@, spelling@) {
                self@.insert(slot(self@, spelling@.len(), 0), (spelling@, unit))
            } else {
                self@
            },
    {
        proof {
            use_type_invariant(&self);
        }
        let len = spelling.unicode_len();
        if len == 0 || self.position(spelling).is_some() {
            return self;
        }
        let ghost before = self@;
        let mut at: usize = 0;
        while at < self.entries.len() && self.entries[at].spelling.as_str().unicode_len() >= len
            invariant
                at <= self.entries@.len(),
                before == self@,
                len == spelling@.len(),
                slot(before, len as nat, 0) == slot(before, len as nat, at as int),
                forall|j: int| 0 <= j < at ==> (#[trigger] before[j]).0.len() >= len,
            decreases self.entries@.len() - at,
        {
            at += 1;
        }
        assert(at == slot(before, len as nat, 0));
        assert(forall|j: int| at <= j < before.len() ==> (#[trigger] before[j]).0.len() < len) by {
            if at < before.len() {
                assert(before[at as int].0.len() < len);
                assert forall|j: int| at <= j < before.len() implies (#[trigger] before[j]).0.len() < len by {
                    if at < j {
                        assert(before[at as int].0.len() >= before[j].0.len());
                    }
                }
            }
        }
        let mut entries = self.entries;
        entries.insert(at, Entry { spelling: String::from_str(spelling), unit });
        let ghost after = Seq::new(entries@.len(), |i: int| (entries@[i].spelling@, entries@[i].unit));
        proof {
            assert(after =~= before.insert(at as int, (spelling@, unit)));
            assert forall|i: int, j: int| 0 <= i < j < after.len() implies (#[trigger] after[i]).0.len() >= (
            #[trigger] after[j]).0.len() && after[i].0 != after[j].0 by {
                let bi = if i < at { i } else { i - 1 };
                let bj = if j < at { j } else { j - 1 };
                if i != at && j != at {
                    assert(before[bi].0.len() >= before[bj].0.len());
                    assert(before[bi].0 != before[bj].0);
                } else if i == at {
                    assert(before[bj].0.len() < len);
                    assert(before[bj].0 != spelling@);
                } else {
                    assert(before[bi].0.len() >= len);
                    assert(before[bi].0 != spelling@);
                }
            }
            assert forall|i: int| 0 <= i < after.len() implies (#[trigger] after[i]).0.len() > 0 by {
                if i != at {
                    let bi = if i < at { i } else { i - 1 };
                    assert(before[bi].0.len() > 0);
                }
            }
        }
        Registry { entries }
    }

    /// The registry with the three spellings of `unit` added.
    fn insert_unit(self, unit: UnitRef) -> (r: Registry)
        ensures
            forall|token: Seq<char>| #[trigger]
                has_key(r@, token) <==> has_key(self@, token) || spelled(unit, token),
            only_catalog(self@) ==> only_catalog(r@),
    {
        let name = unit.name();
        let abbrev = unit.abbrev();
        let symbol = unit.symbol();
        let ghost e0 = self@;
        let r1 = self.insert(name.as_str(), unit);
        let ghost e1 = r1@;
        let r2 = r1.insert(abbrev.as_str(), unit);
        let ghost e2 = r2@;
        let r3 = r2.insert(symbol.as_str(), unit);
        proof {
            lemma_spellings_nonempty(unit);
            lemma_insert_keys(e0, e1, name@, unit);
            lemma_insert_keys(e1, e2, abbrev@, unit);
            lemma_insert_keys(e2, r3@, symbol@, unit);
        }
        r3
    }

    /// The registry with the spellings of every unit that bears `scale` added.
    fn insert_scale(self, scale: Scale) -> (r: Registry)
        ensures
            forall|token: Seq<char>| has_key(self@, token) ==> #[trigger] has_key(r@, token),
            forall|unit: UnitRef, token: Seq<char>|
                unit.spec_scale() == scale && #[trigger] spelled(unit, token) ==> has_key(r@, token),
            only_catalog(self@) ==> only_catalog(r@),
    {
        let mut r = self;
        let ghost e0 = r@;
        if let Some(u) = Length::from_scale(scale) {
            r = r.insert_unit(UnitRef::Length(u));
        }
        let ghost e1 = r@;
        if let Some(u) = Mass::from_scale(scale) {
            r = r.insert_unit(UnitRef::Mass(u));
        }
        let ghost e2 = r@;
        if let Some(u) = Time::from_scale(scale) {
            r = r.insert_unit(UnitRef::Time(u));
        }
        let ghost e3 = r@;
        if let Some(u) = Force::from_scale(scale) {
            r = r.insert_unit(UnitRef::Force(u));
        }
        proof {
            assert forall|unit: UnitRef, token: Seq<char>|
                unit.spec_scale() == scale && #[trigger] spelled(unit, token) implies has_key(
                r@,
                token,
            ) by {
                match unit {
                    UnitRef::Length(u) => {
                        assert(has_key(e1, token));
                        assert(has_key(e2, token));
                        assert(has_key(e3, token));
                    },
                    UnitRef::Mass(u) => {
                        assert(has_key(e2, token));
                        assert(has_key(e3, token));
                    },
                    UnitRef::Time(u) => {
                        assert(has_key(e3, token));
                    },
                    UnitRef::Force(u) => {},
                }
            }
            assert forall|token: Seq<char>| has_key(e0, token) implies #[trigger] has_key(r@, token) by {
                assert(has_key(e1, token));
                assert(has_key(e2, token));
                assert(has_key(e3, token));
            }
        }
        r
    }

    /// The registry of the whole catalog: a token is one of its spellings if
    /// and only if it is the name, the abbreviation or the display symbol of
    /// a unit, and each spelling names a unit that is spelled so.
    pub fn standard() -> (r: Registry)
        ensures
            is_catalog(r@),
    {
        let mut r = Registry::new();
        let mut rank: usize = 0;
        while rank < 1 + Prefix::COUNT + 2
            invariant
                rank <= 1 + Prefix::COUNT + 2,
                only_catalog(r@),
                forall|unit: UnitRef, token: Seq<char>|
                    scale_rank(unit.spec_scale()) < rank && #[trigger] spelled(unit, token) ==> has_key(
                        r@,
                        token,
                    ),
            decreases 1 + Prefix::COUNT + 2 - rank,
        {
            let scale = scale_at(rank);
            let ghost before = r@;
            r = r.insert_scale(scale);
            proof {
                assert forall|unit: UnitRef, token: Seq<char>|
                    scale_rank(unit.spec_scale()) < rank + 1 && #[trigger] spelled(
                        unit,
                        token,
                    ) implies has_key(r@, token) by {
                    if scale_rank(unit.spec_scale()) < rank {
                        assert(has_key(before, token));
                    } else {
                        lemma_rank_determines_scale(unit.spec_scale(), scale);
                    }
                }
            }
            rank += 1;
        }
        proof {
            assert forall|token: Seq<char>| #[trigger] has_key(r@, token) <==> in_catalog(token) by {
                if has_key(r@, token) {
                    let i = choose|i: int| 0 <= i < r@.len() && (#[trigger] r@[i]).0 == token;
                    assert(spelled(r@[i].1, token));
                }
                if in_catalog(token) {
                    let unit = choose|unit: UnitRef| spelled(unit, token);
                    lemma_rank_bound(unit);
                }
            }
            use_type_invariant(&r);
        }
        r
    }
}

/// Whether the entries are those of the whole catalog: well formed, with a
/// spelling for every name, abbreviation and display symbol of every unit,
/// and with no other spelling.
pub open spec fn is_catalog(entries: Entries) -> bool {
    &&& well_formed(entries)
    &&& forall|token: Seq<char>| #[trigger] has_key(entries, token) <==> in_catalog(token)
    &&& only_catalog(entries)
}

/// Every spelling names a unit that is spelled so.
pub open spec fn only_catalog(entries: Entries) -> bool {
    forall|i: int| 0 <= i < entries.len() ==> spelled((#[trigger] entries[i]).1, entries[i].0)
}

/// The mark at a position of the order in which the catalog is filled.
fn scale_at(rank: usize) -> (scale: Scale)
    requires
        rank < 1 + Prefix::COUNT + 2,
    ensures
        scale_rank(scale) == rank,
{
    if rank == 0 {
        Scale::base
    } else if rank <= Prefix::COUNT {
        match Prefix::from_index(rank - 1) {
            Some(p) => Scale::prefixed(p),
            None => Scale::base,
        }
    } else if rank == 1 + Prefix::COUNT {
        Scale::other(0)
    } else {
        Scale::other(1)
    }
}

/// Two marks at the same position are the same mark.
proof fn lemma_rank_determines_scale(a: Scale, b: Scale)
    requires
        scale_rank(a) == scale_rank(b),
    ensures
        a == b,
{
}

/// The catalog is filled in as many steps as there are marks in use.
proof fn lemma_rank_bound(unit: UnitRef)
    ensures
        0 <= scale_rank(unit.spec_scale()) < 1 + Prefix::COUNT + 2,
{
}

/// Where a spelling goes lies within the entries.
proof fn lemma_slot_bounds(entries: Entries, len: nat, from: int)
    requires
        0 <= from <= entries.len(),
    ensures
        from <= slot(entries, len, from) <= entries.len(),
    decreases entries.len() - from,
{
    if from < entries.len() && entries[from].0.len() >= len {
        lemma_slot_bounds(entries, len, from + 1);
    }
}

/// What one insertion does to the set of spellings, and that it keeps every
/// spelling with a unit that is spelled so.
proof fn lemma_insert_keys(before: Entries, after: Entries, spelling: Seq<char>, unit: UnitRef)
    requires
        spelling.len() > 0,
        spelled(unit, spelling),
        after == if !has_key(before, spelling) {
            before.insert(slot(before, spelling.len(), 0), (spelling, unit))
        } else {
            before
        },
    ensures
        forall|token: Seq<char>| #[trigger]
            has_key(after, token) <==> has_key(before, token) || token == spelling,
        only_catalog(before) ==> only_catalog(after),
{
    if !has_key(before, spelling) {
        let at = slot(before, spelling.len(), 0);
        lemma_slot_bounds(before, spelling.len(), 0);
        assert forall|token: Seq<char>| #[trigger]
            has_key(after, token) <==> has_key(before, token) || token == spelling by {
            if has_key(before, token) {
                let i = choose|i: int| 0 <= i < before.len() && (#[trigger] before[i]).0 == token;
                let j = if i < at { i } else { i + 1 };
                assert(after[j].0 == token);
            }
            if token == spelling {
                assert(after[at].0 == token);
            }
            if has_key(after, token) {
                let j = choose|j: int| 0 <= j < after.len() && (#[trigger] after[j]).0 == token;
                if j != at {
                    let i = if j < at { j } else { j - 1 };
                    assert(before[i].0 == token);
                }
            }
        }
        if only_catalog(before) {
            assert forall|j: int| 0 <= j < after.len() implies spelled((#[trigger] after[j]).1, after[j].0) by {
                if j != at {
                    let i = if j < at { j } else { j - 1 };
                    assert(spelled(before[i].1, before[i].0));
                }
            }
        }
    }
}

} // verus!
