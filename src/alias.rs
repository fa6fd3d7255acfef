use vstd::prelude::*;
use crate::error::FgError;
use crate::text::{same_text, views};

verus! {

/// One stored alias: its name and the commands it runs, in order.
pub struct AliasEntry {
    pub name: String,
    pub commands: Vec<String>,
}

/// The view of one entry.
pub open spec fn entry_view(e: AliasEntry) -> (Seq<char>, Seq<Seq<char>>) {
    (e.name@, views(e.commands@))
}

/// The views of a list of entries.
pub open spec fn entry_views(es: Seq<AliasEntry>) -> Seq<(Seq<char>, Seq<Seq<char>>)> {
    es.map_values(|e: AliasEntry| entry_view(e))
}

/// No two entries share a name.
pub open spec fn unique_names(es: Seq<(Seq<char>, Seq<Seq<char>>)>) -> bool {
    forall|i: int, j: int| 0 <= i < j < es.len() ==> #[trigger] es[i].0 != #[trigger] es[j].0
}

/// The mapping from alias name to commands that a list of entries holds.
pub open spec fn table_map(es: Seq<(Seq<char>, Seq<Seq<char>>)>) -> Map<
    Seq<char>,
    Seq<Seq<char>>,
>
    decreases es.len(),
{
    if es.len() == 0 {
        Map::empty()
    } else {
        table_map(es.drop_last()).insert(es.last().0, es.last().1)
    }
}

/// A name is a key of the mapping exactly when some entry carries it.
pub proof fn lemma_table_dom(es: Seq<(Seq<char>, Seq<Seq<char>>)>, n: Seq<char>)
    ensures
        table_map(es).dom().contains(n) <==> exists|k: int| 0 <= k < es.len() && es[k].0 == n,
    decreases es.len(),
{
    if es.len() > 0 {
        let d = es.drop_last();
        lemma_table_dom(d, n);
        if exists|k: int| 0 <= k < d.len() && d[k].0 == n {
            let k = choose|k: int| 0 <= k < d.len() && d[k].0 == n;
            assert(es[k].0 == n);
        }
        if exists|k: int| 0 <= k < es.len() && es[k].0 == n {
            let k = choose|k: int| 0 <= k < es.len() && es[k].0 == n;
            if k < d.len() {
                assert(d[k].0 == n);
            }
        }
    }
}

/// With unique names, the mapping sends each entry's name to its commands.
pub proof fn lemma_table_at(es: Seq<(Seq<char>, Seq<Seq<char>>)>, k: int)
    requires
        unique_names(es),
        0 <= k < es.len(),
    ensures
        table_map(es).dom().contains(es[k].0),
        table_map(es)[es[k].0] == es[k].1,
    decreases es.len(),
{
    let d = es.drop_last();
    if k < es.len() - 1 {
        assert(unique_names(d));
        lemma_table_at(d, k);
        assert(d[k] == es[k]);
    }
}

/// With unique names, replacing the commands of entry `k` replaces them in
/// the mapping.
pub proof fn lemma_table_update(
    es: Seq<(Seq<char>, Seq<Seq<char>>)>,
    k: int,
    c: Seq<Seq<char>>,
)
    requires
        unique_names(es),
        0 <= k < es.len(),
    ensures
        table_map(es.update(k, (es[k].0, c))) == table_map(es).insert(es[k].0, c),
    decreases es.len(),
{
    let n = es[k].0;
    let u = es.update(k, (n, c));
    let d = es.drop_last();
    assert(u.drop_last() =~= if k < es.len() - 1 { d.update(k, (n, c)) } else { d });
    if k < es.len() - 1 {
        assert(unique_names(d));
        lemma_table_update(d, k, c);
        assert(es.last().0 != n);
        assert(table_map(u) =~= table_map(es).insert(n, c));
    } else {
        assert(table_map(u) =~= table_map(es).insert(n, c));
    }
}

/// The stored aliases, at most one entry per name.
pub struct AliasTable {
    pub entries: Vec<AliasEntry>,
}

impl View for AliasTable {
    type V = Map<Seq<char>, Seq<Seq<char>>>;

    open spec fn view(&self) -> Map<Seq<char>, Seq<Seq<char>>> {
        table_map(entry_views(self.entries@))
    }
}

/// The table after creating alias `name` with `commands`: the entry is
/// inserted, or replaces the one of the same name.
pub open spec fn table_after_create(
    t: Map<Seq<char>, Seq<Seq<char>>>,
    name: Seq<char>,
    commands: Seq<Seq<char>>,
) -> Map<Seq<char>, Seq<Seq<char>>> {
    if name.len() == 0 || commands.len() == 0 {
        t
    } else {
        t.insert(name, commands)
    }
}

/// A copy of a list of strings.
fn copy_strings(v: &Vec<String>) -> (r: Vec<String>)
    ensures
        r@ == v@,
{
    let mut r: Vec<String> = Vec::new();
    let mut i: usize = 0;
    while i < v.len()
        invariant
            i <= v@.len(),
            r@ == v@.subrange(0, i as int),
        decreases v@.len() - i,
    {
        r.push(v[i].clone());
        i = i + 1;
        assert(r@ =~= v@.subrange(0, i as int));
    }
    assert(v@.subrange(0, v@.len() as int) =~= v@);
    r
}

impl AliasTable {
    /// No two entries share a name.
    pub open spec fn wf(&self) -> bool {
        unique_names(entry_views(self.entries@))
    }

    /// A table with no aliases.
    pub fn new() -> (r: AliasTable)
        ensures
            r.wf(),
            r@ == Map::<Seq<char>, Seq<Seq<char>>>::empty(),
    {
        let r = AliasTable { entries: Vec::new() };
        assert(entry_views(r.entries@).len() == 0);
        r
    }

    /// The position of the entry named `name`, if there is one.
    pub fn find(&self, name: &str) -> (r: Option<usize>)
        requires
            self.wf(),
        ensures
            r is None <==> !self@.dom().contains(name@),
            r matches Some(k) ==> k < self.entries@.len() && self.entries@[k as int].name@
                == name@,
    {
        let ghost es = entry_views(self.entries@);
        let mut i: usize = 0;
        while i < self.entries.len()
            invariant
                self.wf(),
                es == entry_views(self.entries@),
                i <= self.entries@.len(),
                forall|j: int| 0 <= j < i ==> es[j].0 != name@,
            decreases self.entries@.len() - i,
        {
            if same_text(self.entries[i].name.as_str(), name) {
                proof {
                    lemma_table_at(es, i as int);
                }
                return Some(i);
            }
            i = i + 1;
        }
        proof {
            lemma_table_dom(es, name@);
        }
        None
    }

    /// The commands stored under `name`, if any.
    pub fn commands_of(&self, name: &str) -> (r: Option<Vec<String>>)
        requires
            self.wf(),
        ensures
            r is None <==> !self@.dom().contains(name@),
            r matches Some(c) ==> views(c@) == self@[name@],
    {
        match self.find(name) {
            Some(k) => {
                proof {
                    lemma_table_at(entry_views(self.entries@), k as int);
                }
                Some(copy_strings(&self.entries[k].commands))
            },
            None => None,
        }
    }

    /// Stores `commands` under `name`, replacing any entry of that name.
    pub fn insert(&mut self, name: String, commands: Vec<String>)
        requires
            old(self).wf(),
        ensures
            final(self).wf(),
            final(self)@ == old(self)@.insert(name@, views(commands@)),
    {
        let ghost es = entry_views(self.entries@);
        let ghost c = views(commands@);
        match self.find(name.as_str()) {
            Some(k) => {
                let mut cs = commands;
                let e = &mut self.entries[k];
                std::mem::swap(&mut e.commands, &mut cs);
                proof {
                    assert(entry_views(self.entries@) =~= es.update(k as int, (es[k as int].0, c)));
                    lemma_table_update(es, k as int, c);
                }
            },
            None => {
                proof {
                    lemma_table_dom(es, name@);
                }
                self.entries.push(AliasEntry { name, commands });
                proof {
                    let ns = entry_views(self.entries@);
                    assert(ns.drop_last() =~= es);
                    assert(ns =~= es.push((name@, c)));
                }
            },
        }
    }
}

/// Creates alias `name` running `commands`, replacing any alias of that name.
/// Fails with `EmptyAliasName` when the name is empty, and otherwise with
/// `EmptyCommandList` when there are no commands; the table is then left as
/// it was.
pub fn create_alias(table: &mut AliasTable, name: &str, commands: Vec<String>) -> (r: Result<(), FgError>)
    requires
        old(table).wf(),
    ensures
        final(table).wf(),
        name@.len() == 0 ==> r == Err::<(), FgError>(FgError::EmptyAliasName),
        name@.len() > 0 && commands@.len() == 0 ==> r == Err::<(), FgError>(FgError::EmptyCommandList),
        r is Ok <==> name@.len() > 0 && commands@.len() > 0,
        final(table)@ == table_after_create(old(table)@, name@, views(commands@)),
{
    if name.unicode_len() == 0 {
        return Err(FgError::EmptyAliasName);
    }
    if commands.len() == 0 {
        return Err(FgError::EmptyCommandList);
    }
    table.insert(String::from_str(name), commands);
    Ok(())
}

/// The stored aliases as (name, commands) pairs, each once, in the order in
/// which their names were first stored.
pub fn list_aliases(table: &AliasTable) -> (r: Vec<(String, Vec<String>)>)
    requires
        table.wf(),
    ensures
        r@.len() == table.entries@.len(),
        forall|i: int|
            0 <= i < r@.len() ==> (#[trigger] r@[i]).0@ == table.entries@[i].name@ && views(
                r@[i].1@,
            ) == views(table.entries@[i].commands@),
        forall|i: int|
            0 <= i < r@.len() ==> table@.dom().contains((#[trigger] r@[i]).0@) && table@[r@[i].0@]
                == views(r@[i].1@),
        forall|n: Seq<char>|
            #[trigger] table@.dom().contains(n) ==> exists|i: int| 0 <= i < r@.len() && r@[i].0@ == n,
        forall|i: int, j: int| 0 <= i < j < r@.len() ==> (#[trigger] r@[i]).0@ != (#[trigger] r@[j]).0@,
{
    let ghost es = entry_views(table.entries@);
    let mut out: Vec<(String, Vec<String>)> = Vec::new();
    let mut i: usize = 0;
    while i < table.entries.len()
        invariant
            table.wf(),
            es == entry_views(table.entries@),
            i <= table.entries@.len(),
            out@.len() == i,
            forall|j: int|
                0 <= j < i ==> (#[trigger] out@[j]).0@ == es[j].0 && views(out@[j].1@) == es[j].1,
        decreases table.entries@.len() - i,
    {
        let e = &table.entries[i];
        out.push((e.name.clone(), copy_strings(&e.commands)));
        i = i + 1;
    }
    assert forall|k: int| 0 <= k < out@.len() implies table@.dom().contains((#[trigger] out@[k]).0@)
        && table@[out@[k].0@] == views(out@[k].1@) by {
        lemma_table_at(es, k);
    }
    assert forall|n: Seq<char>| #[trigger] table@.dom().contains(n) implies exists|k: int|
        0 <= k < out@.len() && out@[k].0@ == n by {
        lemma_table_dom(es, n);
        let k = choose|k: int| 0 <= k < es.len() && es[k].0 == n;
        assert(out@[k].0@ == es[k].0);
    }
    out
}

/// Creating an alias makes its name map to the given commands, and creating
/// it again with other commands replaces them rather than appending.
pub proof fn lemma_create_then_read(
    t: Map<Seq<char>, Seq<Seq<char>>>,
    name: Seq<char>,
    first: Seq<Seq<char>>,
    second: Seq<Seq<char>>,
)
    requires
        name.len() > 0,
        first.len() > 0,
        second.len() > 0,
    ensures
        table_after_create(t, name, first).dom().contains(name),
        table_after_create(t, name, first)[name] == first,
        table_after_create(table_after_create(t, name, first), name, second)[name] == second,
        table_after_create(table_after_create(t, name, first), name, second) == table_after_create(
            t,
            name,
            second,
        ),
{
    assert(table_after_create(table_after_create(t, name, first), name, second) =~= t.insert(
        name,
        second,
    ));
}

} // verus!
