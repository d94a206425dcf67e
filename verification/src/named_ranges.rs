//! A workbook's defined names: the scoped list, and the legacy list of workbook-wide
//! `(name, formula)` pairs that is kept in step with it.

use vstd::prelude::*;

use crate::error::Error;
use crate::text::{push_str, str_eq, to_string};
use crate::workbook::{DefinedName, DefinedNameScope};
use crate::xlsx_reader::{defined_name_view, DefinedNameV};

verus! {

/// The defined names of a workbook.
pub struct NamedRanges {
    defined_names: Vec<(String, String)>,
    scoped_defined_names: Vec<DefinedName>,
}

/// The mathematical form of [`NamedRanges`].
pub ghost struct NamesV {
    /// The workbook-wide `(name, formula)` pairs.
    pub legacy: Seq<(Seq<char>, Seq<char>)>,
    /// Every defined name with its scope.
    pub scoped: Seq<DefinedNameV>,
}

/// The views of a list of `(name, formula)` pairs.
pub open spec fn pair_texts(v: Seq<(String, String)>) -> Seq<(Seq<char>, Seq<char>)> {
    v.map_values(|p: (String, String)| (p.0@, p.1@))
}

/// The views of a list of defined names.
pub open spec fn name_list(v: Seq<DefinedName>) -> Seq<DefinedNameV> {
    v.map_values(|d: DefinedName| defined_name_view(d))
}

impl View for NamedRanges {
    type V = NamesV;

    closed spec fn view(&self) -> NamesV {
        NamesV { legacy: pair_texts(self.defined_names@), scoped: name_list(self.scoped_defined_names@) }
    }
}

/// The index of the first name called `name` with scope `scope`, or -1.
pub open spec fn find_scoped(s: Seq<DefinedNameV>, name: Seq<char>, scope: DefinedNameScope) -> int
    decreases s.len(),
{
    if s.len() == 0 {
        -1
    } else if s[0].name == name && s[0].scope == scope {
        0
    } else {
        let r = find_scoped(s.drop_first(), name, scope);
        if r < 0 {
            -1
        } else {
            r + 1
        }
    }
}

/// The index of the first name called `name`, whatever its scope, or -1.
pub open spec fn find_named(s: Seq<DefinedNameV>, name: Seq<char>) -> int
    decreases s.len(),
{
    if s.len() == 0 {
        -1
    } else if s[0].name == name {
        0
    } else {
        let r = find_named(s.drop_first(), name);
        if r < 0 {
            -1
        } else {
            r + 1
        }
    }
}

/// The index of the first pair whose name is `name`, or -1.
pub open spec fn find_pair(s: Seq<(Seq<char>, Seq<char>)>, name: Seq<char>) -> int
    decreases s.len(),
{
    if s.len() == 0 {
        -1
    } else if s[0].0 == name {
        0
    } else {
        let r = find_pair(s.drop_first(), name);
        if r < 0 {
            -1
        } else {
            r + 1
        }
    }
}

/// The workbook-scoped names of a scoped list, as `(name, formula)` pairs in order.
pub open spec fn workbook_pairs(s: Seq<DefinedNameV>) -> Seq<(Seq<char>, Seq<char>)>
    decreases s.len(),
{
    if s.len() == 0 {
        Seq::empty()
    } else {
        let p = workbook_pairs(s.drop_last());
        if s.last().scope is Workbook {
            p.push((s.last().name, s.last().formula))
        } else {
            p
        }
    }
}

/// Whether the legacy list holds exactly the workbook-scoped names, in order.
pub open spec fn in_step(v: NamesV) -> bool {
    v.legacy == workbook_pairs(v.scoped)
}

/// Defining a workbook-wide name: it goes to both lists.
pub open spec fn spec_define_name(v: NamesV, name: Seq<char>, formula: Seq<char>) -> NamesV {
    NamesV {
        legacy: v.legacy.push((name, formula)),
        scoped: v.scoped.push(DefinedNameV { name, formula, scope: DefinedNameScope::Workbook }),
    }
}

/// Defining a name local to a sheet: it goes to the scoped list only.
pub open spec fn spec_define_name_scoped(v: NamesV, name: Seq<char>, formula: Seq<char>, sheet: usize) -> NamesV {
    NamesV { scoped: v.scoped.push(DefinedNameV { name, formula, scope: DefinedNameScope::Sheet(sheet) }), ..v }
}

/// Adding a named range that is not yet defined with that scope.
pub open spec fn spec_add_named_range(v: NamesV, name: Seq<char>, formula: Seq<char>, scope: DefinedNameScope) -> NamesV {
    NamesV {
        scoped: v.scoped.push(DefinedNameV { name, formula, scope }),
        legacy: if scope is Workbook {
            v.legacy.push((name, formula))
        } else {
            v.legacy
        },
    }
}

/// Giving the first name called `name` a new formula, and the first legacy pair of that name.
pub open spec fn spec_update_named_range(v: NamesV, name: Seq<char>, formula: Seq<char>) -> NamesV {
    let k = find_named(v.scoped, name);
    let j = find_pair(v.legacy, name);
    NamesV {
        scoped: v.scoped.update(k, DefinedNameV { formula, ..v.scoped[k] }),
        legacy: if j >= 0 {
            v.legacy.update(j, (name, formula))
        } else {
            v.legacy
        },
    }
}

/// Removing the first name called `name` with scope `scope`, and for a workbook-wide name the
/// first legacy pair of that name.
pub open spec fn spec_remove_named_range(v: NamesV, name: Seq<char>, scope: DefinedNameScope) -> NamesV {
    let k = find_scoped(v.scoped, name, scope);
    let j = find_pair(v.legacy, name);
    NamesV {
        scoped: v.scoped.remove(k),
        legacy: if scope is Workbook && j >= 0 {
            v.legacy.remove(j)
        } else {
            v.legacy
        },
    }
}

/// The message of a refused addition.
pub open spec fn duplicate_message(name: Seq<char>) -> Seq<char> {
    "Defined name '"@ + name + "' already exists with the same scope"@
}

/// The message of an update of an unknown name.
pub open spec fn not_found_message(name: Seq<char>) -> Seq<char> {
    "Defined name '"@ + name + "' not found"@
}

/// The message of a removal of an unknown name.
pub open spec fn not_found_in_scope_message(name: Seq<char>) -> Seq<char> {
    "Defined name '"@ + name + "' not found with the specified scope"@
}

fn quoted_message(head: &str, name: &str, tail: &str) -> (res: String)
    ensures
        res@ == head@ + name@ + tail@,
{
    let mut s = to_string(head);
    push_str(&mut s, name);
    push_str(&mut s, tail);
    s
}

proof fn lemma_find_scoped_at(s: Seq<DefinedNameV>, name: Seq<char>, scope: DefinedNameScope, i: int)
    requires
        0 <= i <= s.len(),
        forall|k: int| 0 <= k < i ==> !(#[trigger] s[k].name == name && s[k].scope == scope),
    ensures
        i < s.len() && s[i].name == name && s[i].scope == scope ==> find_scoped(s, name, scope) == i,
        i == s.len() ==> find_scoped(s, name, scope) == -1,
    decreases i,
{
    if i > 0 {
        let t = s.drop_first();
        assert forall|k: int| 0 <= k < i - 1 implies !(#[trigger] t[k].name == name && t[k].scope == scope) by {
            assert(t[k] == s[k + 1]);
        }
        if i < s.len() {
            assert(t[i - 1] == s[i]);
        }
        assert(!(s[0].name == name && s[0].scope == scope));
        lemma_find_scoped_at(t, name, scope, i - 1);
    }
}

proof fn lemma_find_named_at(s: Seq<DefinedNameV>, name: Seq<char>, i: int)
    requires
        0 <= i <= s.len(),
        forall|k: int| 0 <= k < i ==> #[trigger] s[k].name != name,
    ensures
        i < s.len() && s[i].name == name ==> find_named(s, name) == i,
        i == s.len() ==> find_named(s, name) == -1,
    decreases i,
{
    if i > 0 {
        let t = s.drop_first();
        assert forall|k: int| 0 <= k < i - 1 implies #[trigger] t[k].name != name by {
            assert(t[k] == s[k + 1]);
        }
        if i < s.len() {
            assert(t[i - 1] == s[i]);
        }
        lemma_find_named_at(t, name, i - 1);
    }
}

proof fn lemma_find_pair_at(s: Seq<(Seq<char>, Seq<char>)>, name: Seq<char>, i: int)
    requires
        0 <= i <= s.len(),
        forall|k: int| 0 <= k < i ==> #[trigger] s[k].0 != name,
    ensures
        i < s.len() && s[i].0 == name ==> find_pair(s, name) == i,
        i == s.len() ==> find_pair(s, name) == -1,
    decreases i,
{
    if i > 0 {
        let t = s.drop_first();
        assert forall|k: int| 0 <= k < i - 1 implies #[trigger] t[k].0 != name by {
            assert(t[k] == s[k + 1]);
        }
        if i < s.len() {
            assert(t[i - 1] == s[i]);
        }
        lemma_find_pair_at(t, name, i - 1);
    }
}

impl NamedRanges {
    /// No defined names.
    pub fn new() -> (res: Self)
        ensures
            res@ == (NamesV { legacy: Seq::empty(), scoped: Seq::empty() }),
    {
        let res = NamedRanges { defined_names: Vec::new(), scoped_defined_names: Vec::new() };
        assert(res@.legacy =~= Seq::<(Seq<char>, Seq<char>)>::empty());
        assert(res@.scoped =~= Seq::<DefinedNameV>::empty());
        res
    }

    fn position_scoped(&self, name: &str, scope: DefinedNameScope) -> (res: Option<usize>)
        ensures
            match res {
                Some(k) => k < self@.scoped.len() && find_scoped(self@.scoped, name@, scope) == k,
                None => find_scoped(self@.scoped, name@, scope) == -1,
            },
    {
        let ghost s = self@.scoped;
        let mut i: usize = 0;
        while i < self.scoped_defined_names.len()
            invariant
                0 <= i <= self.scoped_defined_names.len(),
                s == self@.scoped,
                s.len() == self.scoped_defined_names.len(),
                forall|k: int| 0 <= k < i ==> !(#[trigger] s[k].name == name@ && s[k].scope == scope),
            decreases self.scoped_defined_names.len() - i,
        {
            let dn = &self.scoped_defined_names[i];
            assert(s[i as int] == defined_name_view(*dn));
            if str_eq(dn.name.as_str(), name) && dn.scope == scope {
                proof {
                    lemma_find_scoped_at(s, name@, scope, i as int);
                }
                return Some(i);
            }
            i += 1;
        }
        proof {
            lemma_find_scoped_at(s, name@, scope, i as int);
        }
        None
    }

    fn position_named(&self, name: &str) -> (res: Option<usize>)
        ensures
            match res {
                Some(k) => k < self@.scoped.len() && find_named(self@.scoped, name@) == k,
                None => find_named(self@.scoped, name@) == -1,
            },
    {
        let ghost s = self@.scoped;
        let mut i: usize = 0;
        while i < self.scoped_defined_names.len()
            invariant
                0 <= i <= self.scoped_defined_names.len(),
                s == self@.scoped,
                s.len() == self.scoped_defined_names.len(),
                forall|k: int| 0 <= k < i ==> #[trigger] s[k].name != name@,
            decreases self.scoped_defined_names.len() - i,
        {
            let dn = &self.scoped_defined_names[i];
            assert(s[i as int] == defined_name_view(*dn));
            if str_eq(dn.name.as_str(), name) {
                proof {
                    lemma_find_named_at(s, name@, i as int);
                }
                return Some(i);
            }
            i += 1;
        }
        proof {
            lemma_find_named_at(s, name@, i as int);
        }
        None
    }

    fn position_pair(&self, name: &str) -> (res: Option<usize>)
        ensures
            match res {
                Some(k) => k < self@.legacy.len() && find_pair(self@.legacy, name@) == k,
                None => find_pair(self@.legacy, name@) == -1,
            },
    {
        let ghost s = self@.legacy;
        let mut i: usize = 0;
        while i < self.defined_names.len()
            invariant
                0 <= i <= self.defined_names.len(),
                s == self@.legacy,
                s.len() == self.defined_names.len(),
                forall|k: int| 0 <= k < i ==> #[trigger] s[k].0 != name@,
            decreases self.defined_names.len() - i,
        {
            assert(s[i as int] == (self.defined_names@[i as int].0@, self.defined_names@[i as int].1@));
            if str_eq(self.defined_names[i].0.as_str(), name) {
                proof {
                    lemma_find_pair_at(s, name@, i as int);
                }
                return Some(i);
            }
            i += 1;
        }
        proof {
            lemma_find_pair_at(s, name@, i as int);
        }
        None
    }

    /// Defines a workbook-wide name.
    pub fn define_name(&mut self, name: &str, formula: &str) -> (res: &mut Self)
        ensures
            res@ == spec_define_name(old(self)@, name@, formula@),
            final(self)@ == final(res)@,
    {
        self.defined_names.push((to_string(name), to_string(formula)));
        self.scoped_defined_names.push(
            DefinedName { name: to_string(name), formula: to_string(formula), scope: DefinedNameScope::Workbook },
        );
        assert(self@.legacy =~= spec_define_name(old(self)@, name@, formula@).legacy);
        assert(self@.scoped =~= spec_define_name(old(self)@, name@, formula@).scoped);
        self
    }

    /// Defines a name local to sheet `sheet_index` (0-based).
    pub fn define_name_scoped(&mut self, name: &str, formula: &str, sheet_index: usize) -> (res: &mut Self)
        ensures
            res@ == spec_define_name_scoped(old(self)@, name@, formula@, sheet_index),
            final(self)@ == final(res)@,
    {
        self.scoped_defined_names.push(
            DefinedName {
                name: to_string(name),
                formula: to_string(formula),
                scope: DefinedNameScope::Sheet(sheet_index),
            },
        );
        assert(self@.scoped =~= spec_define_name_scoped(old(self)@, name@, formula@, sheet_index).scoped);
        self
    }

    /// Adds a named range with the given scope; refused when a name of that name and scope
    /// exists.
    pub fn add_named_range(&mut self, name: &str, formula: &str, scope: DefinedNameScope) -> (res: Result<
        (),
        Error,
    >)
        ensures
            res is Err <==> find_scoped(old(self)@.scoped, name@, scope) >= 0,
            res is Err ==> final(self)@ == old(self)@,
            res matches Err(e) ==> (e matches Error::InvalidData(m) && m@ == duplicate_message(name@)),
            res is Ok ==> final(self)@ == spec_add_named_range(old(self)@, name@, formula@, scope),
    {
        match self.position_scoped(name, scope) {
            Some(_) => {
                return Err(
                    Error::InvalidData(quoted_message("Defined name '", name, "' already exists with the same scope")),
                );
            },
            None => {},
        }
        self.scoped_defined_names.push(DefinedName { name: to_string(name), formula: to_string(formula), scope });
        match scope {
            DefinedNameScope::Workbook => {
                self.defined_names.push((to_string(name), to_string(formula)));
            },
            DefinedNameScope::Sheet(_) => {},
        }
        assert(self@.legacy =~= spec_add_named_range(old(self)@, name@, formula@, scope).legacy);
        assert(self@.scoped =~= spec_add_named_range(old(self)@, name@, formula@, scope).scoped);
        Ok(())
    }

    /// Gives the first name called `name` (any scope) a new formula, and the first legacy pair
    /// of that name too; refused when no name is called `name`.
    pub fn update_named_range(&mut self, name: &str, new_formula: &str) -> (res: Result<(), Error>)
        ensures
            res is Err <==> find_named(old(self)@.scoped, name@) < 0,
            res is Err ==> final(self)@ == old(self)@,
            res matches Err(e) ==> (e matches Error::InvalidData(m) && m@ == not_found_message(name@)),
            res is Ok ==> final(self)@ == spec_update_named_range(old(self)@, name@, new_formula@),
    {
        let k = match self.position_named(name) {
            Some(k) => k,
            None => {
                return Err(Error::InvalidData(quoted_message("Defined name '", name, "' not found")));
            },
        };
        let scope = self.scoped_defined_names[k].scope;
        let ghost before = self@;
        let old_name = to_string(self.scoped_defined_names[k].name.as_str());
        self.scoped_defined_names.set(
            k,
            DefinedName { name: old_name, formula: to_string(new_formula), scope },
        );
        let ghost mid = self@;
        assert(mid.scoped =~= before.scoped.update(
            k as int,
            DefinedNameV { formula: new_formula@, ..before.scoped[k as int] },
        ));
        match self.position_pair(name) {
            Some(j) => {
                self.defined_names.set(j, (to_string(name), to_string(new_formula)));
                assert(self@.legacy =~= before.legacy.update(j as int, (name@, new_formula@)));
            },
            None => {},
        }
        assert(self@.scoped =~= spec_update_named_range(old(self)@, name@, new_formula@).scoped);
        Ok(())
    }

    /// Removes the first name called `name` with scope `scope` (and, for a workbook-wide name,
    /// the first legacy pair of that name); refused when there is none.
    pub fn remove_named_range(&mut self, name: &str, scope: &DefinedNameScope) -> (res: Result<(), Error>)
        ensures
            res is Err <==> find_scoped(old(self)@.scoped, name@, *scope) < 0,
            res is Err ==> final(self)@ == old(self)@,
            res matches Err(e) ==> (e matches Error::InvalidData(m) && m@ == not_found_in_scope_message(name@)),
            res is Ok ==> final(self)@ == spec_remove_named_range(old(self)@, name@, *scope),
    {
        let k = match self.position_scoped(name, *scope) {
            Some(k) => k,
            None => {
                return Err(
                    Error::InvalidData(
                        quoted_message("Defined name '", name, "' not found with the specified scope"),
                    ),
                );
            },
        };
        let ghost before = self@;
        let j = self.position_pair(name);
        self.scoped_defined_names.remove(k);
        assert(self@.scoped =~= before.scoped.remove(k as int));
        match scope {
            DefinedNameScope::Workbook => match j {
                Some(j) => {
                    self.defined_names.remove(j);
                    assert(self@.legacy =~= before.legacy.remove(j as int));
                },
                None => {},
            },
            DefinedNameScope::Sheet(_) => {},
        }
        Ok(())
    }

    /// The workbook-wide `(name, formula)` pairs.
    pub fn defined_names(&self) -> (res: &[(String, String)])
        ensures
            pair_texts(res@) == self@.legacy,
    {
        self.defined_names.as_slice()
    }

    /// Every defined name with its scope.
    pub fn defined_names_with_scope(&self) -> (res: &[DefinedName])
        ensures
            name_list(res@) == self@.scoped,
    {
        self.scoped_defined_names.as_slice()
    }
}

proof fn lemma_find_scoped_facts(s: Seq<DefinedNameV>, name: Seq<char>, scope: DefinedNameScope)
    ensures
        -1 <= find_scoped(s, name, scope) < s.len(),
        find_scoped(s, name, scope) >= 0 ==> s[find_scoped(s, name, scope)].name == name && s[find_scoped(
            s,
            name,
            scope,
        )].scope == scope,
        forall|k: int|
            0 <= k < s.len() && (find_scoped(s, name, scope) < 0 || k < find_scoped(s, name, scope)) ==> !(
            #[trigger] s[k].name == name && s[k].scope == scope),
    decreases s.len(),
{
    if s.len() > 0 {
        let t = s.drop_first();
        lemma_find_scoped_facts(t, name, scope);
        assert forall|k: int|
            0 <= k < s.len() && (find_scoped(s, name, scope) < 0 || k < find_scoped(s, name, scope)) implies !(
            #[trigger] s[k].name == name && s[k].scope == scope) by {
            if k > 0 {
                assert(s[k] == t[k - 1]);
            }
        }
    }
}

proof fn lemma_find_named_facts(s: Seq<DefinedNameV>, name: Seq<char>)
    ensures
        -1 <= find_named(s, name) < s.len(),
        find_named(s, name) >= 0 ==> s[find_named(s, name)].name == name,
        forall|k: int|
            0 <= k < s.len() && (find_named(s, name) < 0 || k < find_named(s, name)) ==> #[trigger] s[k].name
                != name,
    decreases s.len(),
{
    if s.len() > 0 {
        let t = s.drop_first();
        lemma_find_named_facts(t, name);
        assert forall|k: int|
            0 <= k < s.len() && (find_named(s, name) < 0 || k < find_named(s, name)) implies #[trigger] s[k].name
            != name by {
            if k > 0 {
                assert(s[k] == t[k - 1]);
            }
        }
    }
}

proof fn lemma_workbook_pairs_concat(a: Seq<DefinedNameV>, b: Seq<DefinedNameV>)
    ensures
        workbook_pairs(a + b) == workbook_pairs(a) + workbook_pairs(b),
    decreases b.len(),
{
    if b.len() == 0 {
        assert(a + b =~= a);
        assert(workbook_pairs(a) + workbook_pairs(b) =~= workbook_pairs(a));
    } else {
        lemma_workbook_pairs_concat(a, b.drop_last());
        assert((a + b).drop_last() =~= a + b.drop_last());
        assert((a + b).last() == b.last());
        if b.last().scope is Workbook {
            assert(workbook_pairs(a) + workbook_pairs(b) =~= (workbook_pairs(a) + workbook_pairs(b.drop_last())).push(
                (b.last().name, b.last().formula),
            ));
        }
    }
}

proof fn lemma_workbook_pairs_single(x: DefinedNameV)
    ensures
        workbook_pairs(seq![x]) == if x.scope is Workbook {
            seq![(x.name, x.formula)]
        } else {
            Seq::<(Seq<char>, Seq<char>)>::empty()
        },
{
    let e = Seq::<DefinedNameV>::empty();
    assert(seq![x].drop_last() =~= e);
    assert(seq![x].last() == x);
    assert(workbook_pairs(e) == Seq::<(Seq<char>, Seq<char>)>::empty());
    if x.scope is Workbook {
        assert(workbook_pairs(seq![x]) == workbook_pairs(e).push((x.name, x.formula)));
        assert(Seq::<(Seq<char>, Seq<char>)>::empty().push((x.name, x.formula)) =~= seq![(x.name, x.formula)]);
    } else {
        assert(workbook_pairs(seq![x]) == workbook_pairs(e));
    }
}

proof fn lemma_workbook_pairs_names(t: Seq<DefinedNameV>, name: Seq<char>)
    requires
        forall|j: int| 0 <= j < t.len() && (#[trigger] t[j]).scope is Workbook ==> t[j].name != name,
    ensures
        forall|i: int| 0 <= i < workbook_pairs(t).len() ==> (#[trigger] workbook_pairs(t)[i]).0 != name,
    decreases t.len(),
{
    if t.len() > 0 {
        let u = t.drop_last();
        assert forall|j: int| 0 <= j < u.len() && (#[trigger] u[j]).scope is Workbook implies u[j].name != name by {
            assert(u[j] == t[j]);
        }
        lemma_workbook_pairs_names(u, name);
        assert(t.last() == t[t.len() - 1]);
        let pu = workbook_pairs(u);
        if t.last().scope is Workbook {
            assert(workbook_pairs(t) == pu.push((t.last().name, t.last().formula)));
            assert forall|i: int| 0 <= i < workbook_pairs(t).len() implies (#[trigger] workbook_pairs(t)[i]).0
                != name by {
                if i < pu.len() {
                    assert(workbook_pairs(t)[i] == pu[i]);
                }
            }
        } else {
            assert(workbook_pairs(t) == pu);
        }
    }
}

proof fn lemma_split_at(s: Seq<DefinedNameV>, k: int)
    requires
        0 <= k < s.len(),
    ensures
        s == s.take(k) + seq![s[k]] + s.skip(k + 1),
        s.remove(k) == s.take(k) + s.skip(k + 1),
{
    assert(s =~= s.take(k) + seq![s[k]] + s.skip(k + 1));
    assert(s.remove(k) =~= s.take(k) + s.skip(k + 1));
}

/// Adding a workbook-wide name keeps the legacy list in step with the scoped list.
pub proof fn lemma_define_name_keeps_step(v: NamesV, name: Seq<char>, formula: Seq<char>)
    requires
        in_step(v),
    ensures
        in_step(spec_define_name(v, name, formula)),
{
    let w = spec_define_name(v, name, formula);
    assert(w.scoped.drop_last() =~= v.scoped);
}

/// Defining a sheet-local name keeps the legacy list in step with the scoped list.
pub proof fn lemma_define_name_scoped_keeps_step(v: NamesV, name: Seq<char>, formula: Seq<char>, sheet: usize)
    requires
        in_step(v),
    ensures
        in_step(spec_define_name_scoped(v, name, formula, sheet)),
{
    let w = spec_define_name_scoped(v, name, formula, sheet);
    assert(w.scoped.drop_last() =~= v.scoped);
}

/// An accepted addition keeps the legacy list in step with the scoped list.
pub proof fn lemma_add_keeps_step(v: NamesV, name: Seq<char>, formula: Seq<char>, scope: DefinedNameScope)
    requires
        in_step(v),
    ensures
        in_step(spec_add_named_range(v, name, formula, scope)),
{
    let w = spec_add_named_range(v, name, formula, scope);
    assert(w.scoped.drop_last() =~= v.scoped);
}

/// An accepted removal keeps the legacy list in step with the scoped list: the workbook-wide
/// name removed is the first legacy pair of that name.
pub proof fn lemma_remove_keeps_step(v: NamesV, name: Seq<char>, scope: DefinedNameScope)
    requires
        in_step(v),
        find_scoped(v.scoped, name, scope) >= 0,
    ensures
        in_step(spec_remove_named_range(v, name, scope)),
{
    let s = v.scoped;
    let k = find_scoped(s, name, scope);
    lemma_find_scoped_facts(s, name, scope);
    lemma_split_at(s, k);
    let a = s.take(k);
    let b = s.skip(k + 1);
    lemma_workbook_pairs_concat(a + seq![s[k]], b);
    lemma_workbook_pairs_concat(a, seq![s[k]]);
    lemma_workbook_pairs_concat(a, b);
    lemma_workbook_pairs_single(s[k]);
    let pa = workbook_pairs(a);
    let pb = workbook_pairs(b);
    if scope is Workbook {
        assert forall|j: int| 0 <= j < a.len() && (#[trigger] a[j]).scope is Workbook implies a[j].name != name by {
            assert(a[j] == s[j]);
        }
        lemma_workbook_pairs_names(a, name);
        let p = workbook_pairs(s);
        assert(p =~= pa + seq![(name, s[k].formula)] + pb);
        assert forall|i: int| 0 <= i < pa.len() implies #[trigger] p[i].0 != name by {
            assert(p[i] == pa[i]);
        }
        assert(p[pa.len() as int].0 == name);
        lemma_find_pair_at(p, name, pa.len() as int);
        assert(p.remove(pa.len() as int) =~= pa + pb);
    } else {
        assert(workbook_pairs(s) =~= pa + pb);
    }
}

/// Updating a name keeps the legacy list in step with the scoped list, when the first name of
/// that name is workbook-wide or no workbook-wide name has that name.
pub proof fn lemma_update_keeps_step(v: NamesV, name: Seq<char>, formula: Seq<char>)
    requires
        in_step(v),
        find_named(v.scoped, name) >= 0,
        v.scoped[find_named(v.scoped, name)].scope is Workbook || forall|j: int|
            0 <= j < v.scoped.len() && (#[trigger] v.scoped[j]).scope is Workbook ==> v.scoped[j].name != name,
    ensures
        in_step(spec_update_named_range(v, name, formula)),
{
    let s = v.scoped;
    let k = find_named(s, name);
    lemma_find_named_facts(s, name);
    let y = DefinedNameV { formula, ..s[k] };
    let u = s.update(k, y);
    lemma_split_at(s, k);
    let a = s.take(k);
    let b = s.skip(k + 1);
    assert(u =~= a + seq![y] + b);
    lemma_workbook_pairs_concat(a + seq![s[k]], b);
    lemma_workbook_pairs_concat(a, seq![s[k]]);
    lemma_workbook_pairs_concat(a + seq![y], b);
    lemma_workbook_pairs_concat(a, seq![y]);
    lemma_workbook_pairs_single(s[k]);
    lemma_workbook_pairs_single(y);
    let pa = workbook_pairs(a);
    let pb = workbook_pairs(b);
    let p = workbook_pairs(s);
    if s[k].scope is Workbook {
        assert forall|j: int| 0 <= j < a.len() && (#[trigger] a[j]).scope is Workbook implies a[j].name != name by {
            assert(a[j] == s[j]);
        }
        lemma_workbook_pairs_names(a, name);
        assert(p =~= pa + seq![(name, s[k].formula)] + pb);
        assert forall|i: int| 0 <= i < pa.len() implies #[trigger] p[i].0 != name by {
            assert(p[i] == pa[i]);
        }
        assert(p[pa.len() as int].0 == name);
        lemma_find_pair_at(p, name, pa.len() as int);
        assert(p.update(pa.len() as int, (name, formula)) =~= pa + seq![(name, formula)] + pb);
        assert(workbook_pairs(u) =~= pa + seq![(name, formula)] + pb);
    } else {
        lemma_workbook_pairs_names(s, name);
        lemma_find_pair_at(p, name, p.len() as int);
        assert(workbook_pairs(u) =~= pa + pb);
        assert(p =~= pa + pb);
    }
}

/// Adding a named range and then removing it (same name and scope) gives back the names as
/// they were.
pub proof fn lemma_add_then_remove(v: NamesV, name: Seq<char>, formula: Seq<char>, scope: DefinedNameScope)
    requires
        in_step(v),
        find_scoped(v.scoped, name, scope) < 0,
    ensures
        spec_remove_named_range(spec_add_named_range(v, name, formula, scope), name, scope) == v,
{
    let w = spec_add_named_range(v, name, formula, scope);
    lemma_find_scoped_facts(v.scoped, name, scope);
    assert forall|k: int| 0 <= k < v.scoped.len() implies !(#[trigger] w.scoped[k].name == name && w.scoped[k].scope
        == scope) by {
        assert(w.scoped[k] == v.scoped[k]);
    }
    lemma_find_scoped_at(w.scoped, name, scope, v.scoped.len() as int);
    assert(w.scoped.remove(v.scoped.len() as int) =~= v.scoped);
    if scope is Workbook {
        assert forall|j: int| 0 <= j < v.scoped.len() && (#[trigger] v.scoped[j]).scope is Workbook implies v.scoped[
            j].name != name by {}
        lemma_workbook_pairs_names(v.scoped, name);
        assert forall|i: int| 0 <= i < v.legacy.len() implies #[trigger] w.legacy[i].0 != name by {
            assert(w.legacy[i] == v.legacy[i]);
        }
        lemma_find_pair_at(w.legacy, name, v.legacy.len() as int);
        assert(w.legacy.remove(v.legacy.len() as int) =~= v.legacy);
    }
}

} // verus!
