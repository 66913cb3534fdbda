//! The symbol table binder: a fixed registry of named entry points, each
//! gated on a minimum capability level, is resolved against an opened
//! image into an immutable function table.  The actual symbol lookups
//! happen outside this library; their outcomes are handed in as plain
//! optional addresses, and everything from there on is verified.

use vstd::prelude::*;
use crate::text::str_eq;

verus! {

/// One entry of the registry: a canonical exported symbol name and the
/// capability level from which the symbol is expected to exist (zero for
/// unconditionally required entries).
#[derive(Clone, Debug)]
pub struct RegistryEntry {
    /// The exact, case-sensitive exported name.
    pub name: String,
    /// The minimum build-configured capability level at which this entry
    /// is looked up at all.
    pub min_level: u32,
}

/// The fixed, enumerable list of entry points to resolve.
#[derive(Clone, Debug)]
pub struct Registry {
    /// The entries, in binding order.
    pub entries: Vec<RegistryEntry>,
}

/// Whether an entry's capability predicate is satisfied at level `cap`.
pub open spec fn spec_satisfied(e: RegistryEntry, cap: u32) -> bool {
    e.min_level <= cap
}

/// Whether an entry's capability predicate is satisfied at level `cap`.
pub fn satisfied(e: &RegistryEntry, cap: u32) -> (r: bool)
    ensures
        r == spec_satisfied(*e, cap),
{
    e.min_level <= cap
}

/// A registry is well-formed when its entries carry pairwise distinct
/// names.
pub open spec fn registry_wf(entries: Seq<RegistryEntry>) -> bool {
    forall|i: int, j: int|
        0 <= i < j < entries.len() ==> entries[i].name@ != entries[j].name@
}

/// The names that will be looked up against the image at level `cap`: the
/// names of the satisfied entries, in registry order.  Unsatisfied entries
/// are never looked up.
pub open spec fn lookup_names(entries: Seq<RegistryEntry>, cap: u32) -> Seq<Seq<char>>
    decreases entries.len(),
{
    if entries.len() == 0 {
        Seq::<Seq<char>>::empty()
    } else if spec_satisfied(entries[0], cap) {
        seq![entries[0].name@] + lookup_names(entries.skip(1), cap)
    } else {
        lookup_names(entries.skip(1), cap)
    }
}

/// The plan from position `i` on.
fn plan_from(entries: &Vec<RegistryEntry>, cap: u32, i: usize) -> (r: Vec<String>)
    requires
        i <= entries@.len(),
    ensures
        r@.len() == lookup_names(entries@.skip(i as int), cap).len(),
        forall|k: int|
            0 <= k < r@.len() ==> r@[k]@ == lookup_names(entries@.skip(i as int), cap)[k],
    decreases entries@.len() - i,
{
    let ghost tail = entries@.skip(i as int);
    if i == entries.len() {
        Vec::new()
    } else {
        let mut rest = plan_from(entries, cap, i + 1);
        proof {
            assert(tail.skip(1) =~= entries@.skip(i + 1));
        }
        if satisfied(&entries[i], cap) {
            rest.insert(0, entries[i].name.clone());
        }
        rest
    }
}

/// Returns the names to resolve against the opened image at level `cap`,
/// in order: exactly the names of the satisfied entries.
pub fn lookup_plan(reg: &Registry, cap: u32) -> (r: Vec<String>)
    ensures
        r@.len() == lookup_names(reg.entries@, cap).len(),
        forall|k: int| 0 <= k < r@.len() ==> r@[k]@ == lookup_names(reg.entries@, cap)[k],
{
    let r = plan_from(&reg.entries, cap, 0);
    proof {
        assert(reg.entries@.skip(0) =~= reg.entries@);
    }
    r
}

/// A resolved address, with a null address never standing for a resolved
/// entry.
pub open spec fn normalize_addr(a: Option<usize>) -> Option<usize> {
    match a {
        Some(v) => if v == 0 {
            None
        } else {
            Some(v)
        },
        None => None,
    }
}

/// What the function table holds after binding: for each registry entry in
/// order, its name, paired with its resolved address where the entry was
/// satisfied and the lookup (whose outcomes stand in `res`, one for each
/// satisfied entry in order) produced a non-null address, and an explicit
/// absence otherwise.
pub open spec fn bind_model(
    entries: Seq<RegistryEntry>,
    cap: u32,
    res: Seq<Option<usize>>,
) -> Seq<(Seq<char>, Option<usize>)>
    decreases entries.len(),
{
    if entries.len() == 0 {
        Seq::<(Seq<char>, Option<usize>)>::empty()
    } else if spec_satisfied(entries[0], cap) {
        let a = if res.len() > 0 {
            normalize_addr(res[0])
        } else {
            None
        };
        let rest = if res.len() > 0 {
            res.skip(1)
        } else {
            res
        };
        seq![(entries[0].name@, a)] + bind_model(entries.skip(1), cap, rest)
    } else {
        seq![(entries[0].name@, Option::<usize>::None)] + bind_model(entries.skip(1), cap, res)
    }
}

/// One resolved entry of a bound function table: a canonical exported
/// symbol name paired with either the address it resolved to or an
/// explicit absence — never a null address standing in for absence.
#[derive(Clone, Debug)]
pub struct FunctionEntry {
    /// The exported name this entry was resolved under.
    pub name: String,
    /// The resolved address, or nothing where the symbol was gated off or
    /// did not resolve.
    pub addr: Option<usize>,
}

/// An immutable table of resolved entry points, built exactly once by
/// `bind` and never mutated afterward.
#[derive(Debug)]
pub struct FunctionTable {
    entries: Vec<FunctionEntry>,
}

impl View for FunctionTable {
    type V = Seq<(Seq<char>, Option<usize>)>;

    closed spec fn view(&self) -> Seq<(Seq<char>, Option<usize>)> {
        Seq::new(self.entries@.len(), |i: int| (self.entries@[i].name@, self.entries@[i].addr))
    }
}

/// The table rows from entry `i` on, with `res` the outcomes for the
/// satisfied entries from `i` on.
fn bind_from(
    entries: &Vec<RegistryEntry>,
    cap: u32,
    res: &Vec<Option<usize>>,
    i: usize,
    j: usize,
) -> (r: Vec<FunctionEntry>)
    requires
        i <= entries@.len(),
        j <= res@.len(),
        res@.len() - j == lookup_names(entries@.skip(i as int), cap).len(),
    ensures
        r@.len() == bind_model(entries@.skip(i as int), cap, res@.skip(j as int)).len(),
        forall|k: int|
            0 <= k < r@.len() ==> (r@[k].name@, r@[k].addr) == bind_model(
                entries@.skip(i as int),
                cap,
                res@.skip(j as int),
            )[k],
    decreases entries@.len() - i,
{
    let ghost tail = entries@.skip(i as int);
    let ghost rtail = res@.skip(j as int);
    if i == entries.len() {
        Vec::new()
    } else if satisfied(&entries[i], cap) {
        proof {
            assert(lookup_names(tail, cap).len() >= 1);
            assert(tail.skip(1) =~= entries@.skip(i + 1));
            assert(rtail.skip(1) =~= res@.skip(j + 1));
            assert(rtail[0] == res@[j as int]);
        }
        let a = match res[j] {
            Some(v) => if v == 0 {
                None
            } else {
                Some(v)
            },
            None => None,
        };
        let rn = res.len();
        proof {
            assert(j < rn);
        }
        let mut rest = bind_from(entries, cap, res, i + 1, j + 1);
        rest.insert(0, FunctionEntry { name: entries[i].name.clone(), addr: a });
        rest
    } else {
        proof {
            assert(tail.skip(1) =~= entries@.skip(i + 1));
        }
        let mut rest = bind_from(entries, cap, res, i + 1, j);
        rest.insert(0, FunctionEntry { name: entries[i].name.clone(), addr: None });
        rest
    }
}

/// Builds the function table for `reg` at capability level `cap` from the
/// lookup outcomes `res`, which hold one optional address for each name of
/// `lookup_plan(reg, cap)`, in order.  This is the only way a table is
/// made, and tables are never changed afterward.
pub fn bind(reg: &Registry, cap: u32, res: &Vec<Option<usize>>) -> (r: FunctionTable)
    requires
        res@.len() == lookup_names(reg.entries@, cap).len(),
    ensures
        r@ == bind_model(reg.entries@, cap, res@),
{
    proof {
        assert(reg.entries@.skip(0) =~= reg.entries@);
        assert(res@.skip(0) =~= res@);
    }
    let entries = bind_from(&reg.entries, cap, res, 0, 0);
    let t = FunctionTable { entries };
    proof {
        assert(t@ =~= bind_model(reg.entries@, cap, res@));
    }
    t
}

/// An entry of this name is present and resolved.
pub open spec fn available_spec(t: Seq<(Seq<char>, Option<usize>)>, name: Seq<char>) -> bool {
    exists|i: int| 0 <= i < t.len() && t[i].0 == name && t[i].1 is Some
}

/// The address of the first entry carrying `name`, if any.
pub open spec fn table_lookup(
    t: Seq<(Seq<char>, Option<usize>)>,
    name: Seq<char>,
) -> Option<usize>
    decreases t.len(),
{
    if t.len() == 0 {
        None
    } else if t[0].0 == name {
        t[0].1
    } else {
        table_lookup(t.skip(1), name)
    }
}

impl FunctionTable {
    /// The number of entries; the table has one for every registry entry.
    pub fn len(&self) -> (r: usize)
        ensures
            r == self@.len(),
    {
        self.entries.len()
    }

    /// The name of entry `i`.
    pub fn entry_name(&self, i: usize) -> (r: &String)
        requires
            i < self@.len(),
        ensures
            r@ == self@[i as int].0,
    {
        &self.entries[i].name
    }

    /// The resolved address of entry `i`, or nothing where it is absent.
    pub fn entry_addr(&self, i: usize) -> (r: Option<usize>)
        requires
            i < self@.len(),
        ensures
            r == self@[i as int].1,
    {
        self.entries[i].addr
    }

    /// Whether an entry of this exact name is present and resolved.
    pub fn is_available(&self, name: &str) -> (r: bool)
        ensures
            r == available_spec(self@, name@),
    {
        let mut i: usize = 0;
        while i < self.entries.len()
            invariant
                i <= self.entries@.len(),
                forall|k: int|
                    0 <= k < i ==> !(self@[k].0 == name@ && self@[k].1 is Some),
            decreases self.entries@.len() - i,
        {
            if self.entries[i].addr.is_some() && str_eq(self.entries[i].name.as_str(), name) {
                proof {
                    assert(self@[i as int].0 == name@ && self@[i as int].1 is Some);
                }
                return true;
            }
            i += 1;
        }
        false
    }

    /// The address the first entry of this name resolved to, or nothing.
    /// A caller about to invoke the entry point must check for absence:
    /// an absent entry has no address, there is no null to call.
    pub fn get_address(&self, name: &str) -> (r: Option<usize>)
        ensures
            r == table_lookup(self@, name@),
    {
        let ghost t = self@;
        proof {
            assert(t.skip(0) =~= t);
        }
        let mut i: usize = 0;
        while i < self.entries.len()
            invariant
                i <= self.entries@.len(),
                t == self@,
                table_lookup(t, name@) == table_lookup(t.skip(i as int), name@),
            decreases self.entries@.len() - i,
        {
            proof {
                assert(t.skip(i as int).len() == t.len() - i);
                assert(t.skip(i as int)[0] == t[i as int]);
            }
            if str_eq(self.entries[i].name.as_str(), name) {
                return self.entries[i].addr;
            }
            proof {
                assert(t.skip(i as int).skip(1) =~= t.skip(i + 1));
            }
            i += 1;
        }
        proof {
            assert(t.skip(i as int).len() == 0);
        }
        None
    }
}

/// The shape every bound table has: one row per registry entry, carrying
/// that entry's name; a row of an unsatisfied entry is absent, and no
/// resolved row holds a null address.
pub proof fn lemma_bind_model_shape(entries: Seq<RegistryEntry>, cap: u32, res: Seq<Option<usize>>)
    ensures
        bind_model(entries, cap, res).len() == entries.len(),
        forall|k: int|
            0 <= k < entries.len() ==> #[trigger] bind_model(entries, cap, res)[k].0
                == entries[k].name@,
        forall|k: int|
            0 <= k < entries.len() && !spec_satisfied(entries[k], cap) ==> #[trigger] bind_model(
                entries,
                cap,
                res,
            )[k].1 is None,
        forall|k: int|
            0 <= k < entries.len() ==> #[trigger] bind_model(entries, cap, res)[k].1 != Some(
                0usize,
            ),
    decreases entries.len(),
{
    if entries.len() == 0 {
    } else if spec_satisfied(entries[0], cap) {
        let rest = if res.len() > 0 {
            res.skip(1)
        } else {
            res
        };
        lemma_bind_model_shape(entries.skip(1), cap, rest);
    } else {
        lemma_bind_model_shape(entries.skip(1), cap, res);
    }
}

/// An entry gated behind an unsatisfied capability predicate is never
/// looked up at all: its name is not in the lookup plan.
pub proof fn lemma_gated_entry_not_planned(entries: Seq<RegistryEntry>, cap: u32, i: int)
    requires
        registry_wf(entries),
        0 <= i < entries.len(),
        !spec_satisfied(entries[i], cap),
    ensures
        !lookup_names(entries, cap).contains(entries[i].name@),
    decreases entries.len(),
{
    if entries.len() == 0 {
    } else {
        let rest = entries.skip(1);
        let names = lookup_names(entries, cap);
        assert(forall|a: int, b: int|
            0 <= a < b < rest.len() ==> rest[a].name@ != rest[b].name@);
        if i == 0 {
            assert forall|k: int| 0 <= k < names.len() implies names[k] != entries[0].name@ by {
                lemma_planned_names_come_from_satisfied(rest, cap, k);
            }
        } else {
            lemma_gated_entry_not_planned(rest, cap, i - 1);
            if spec_satisfied(entries[0], cap) {
                assert forall|k: int| 0 <= k < names.len() implies names[k]
                    != entries[i].name@ by {
                    if k == 0 {
                        assert(entries[0].name@ != entries[i].name@);
                    } else {
                        assert(names[k] == lookup_names(rest, cap)[k - 1]);
                        assert(!lookup_names(rest, cap).contains(rest[i - 1].name@));
                    }
                }
            } else {
                assert forall|k: int| 0 <= k < names.len() implies names[k]
                    != entries[i].name@ by {
                    assert(names[k] == lookup_names(rest, cap)[k]);
                    assert(!lookup_names(rest, cap).contains(rest[i - 1].name@));
                }
            }
        }
    }
}

/// Every planned name belongs to some satisfied entry.
proof fn lemma_planned_names_come_from_satisfied(entries: Seq<RegistryEntry>, cap: u32, k: int)
    requires
        0 <= k < lookup_names(entries, cap).len(),
    ensures
        exists|j: int|
            0 <= j < entries.len() && spec_satisfied(entries[j], cap) && lookup_names(
                entries,
                cap,
            )[k] == entries[j].name@,
    decreases entries.len(),
{
    if entries.len() == 0 {
    } else if spec_satisfied(entries[0], cap) {
        if k == 0 {
            assert(0 <= 0 < entries.len() && spec_satisfied(entries[0], cap) && lookup_names(
                entries,
                cap,
            )[0] == entries[0].name@);
        } else {
            lemma_planned_names_come_from_satisfied(entries.skip(1), cap, k - 1);
            let j = choose|j: int|
                0 <= j < entries.skip(1).len() && spec_satisfied(entries.skip(1)[j], cap)
                    && lookup_names(entries.skip(1), cap)[k - 1] == entries.skip(1)[j].name@;
            assert(entries.skip(1)[j] == entries[j + 1]);
        }
    } else {
        lemma_planned_names_come_from_satisfied(entries.skip(1), cap, k);
        let j = choose|j: int|
            0 <= j < entries.skip(1).len() && spec_satisfied(entries.skip(1)[j], cap)
                && lookup_names(entries.skip(1), cap)[k] == entries.skip(1)[j].name@;
        assert(entries.skip(1)[j] == entries[j + 1]);
    }
}

/// Binding is idempotent: two tables bound from the same registry, the
/// same capability level and the same lookup outcomes report the same
/// availability for every entry name.
pub proof fn lemma_bind_idempotent(
    entries: Seq<RegistryEntry>,
    cap: u32,
    res: Seq<Option<usize>>,
    t1: Seq<(Seq<char>, Option<usize>)>,
    t2: Seq<(Seq<char>, Option<usize>)>,
)
    requires
        t1 == bind_model(entries, cap, res),
        t2 == bind_model(entries, cap, res),
    ensures
        forall|name: Seq<char>| available_spec(t1, name) == available_spec(t2, name),
{
}

/// An entry gated behind an unsatisfied capability predicate is absent,
/// whatever the lookup outcomes were — in particular, even where the image
/// exports a symbol of that exact name.
pub proof fn lemma_gated_entry_absent(
    entries: Seq<RegistryEntry>,
    cap: u32,
    res: Seq<Option<usize>>,
    i: int,
)
    requires
        registry_wf(entries),
        0 <= i < entries.len(),
        !spec_satisfied(entries[i], cap),
    ensures
        !available_spec(bind_model(entries, cap, res), entries[i].name@),
{
    let t = bind_model(entries, cap, res);
    lemma_bind_model_shape(entries, cap, res);
    assert forall|k: int| 0 <= k < t.len() implies !(t[k].0 == entries[i].name@
        && t[k].1 is Some) by {
        if t[k].0 == entries[i].name@ {
            assert(entries[k].name@ == entries[i].name@);
            if k != i {
                assert(false);
            }
        }
    }
}

} // verus!
