//! The store of loaded tables: named datasets, their load order and the active one.

use vstd::prelude::*;
use vstd::string::*;
use crate::model::Dataset;

verus! {

/// Loaded tables by name, in load order, with the active table and its file.
#[derive(Debug)]
pub struct DataState {
    tables: Vec<(String, Dataset)>,
    active_table: Option<String>,
    file_path: Option<String>,
}

/// The names of the tables.
pub open spec fn names_of(t: Seq<(String, Dataset)>) -> Seq<Seq<char>> {
    t.map_values(|e: (String, Dataset)| e.0@)
}

/// The dataset stored under `name`, searching from the last entry.
pub open spec fn lookup(t: Seq<(String, Dataset)>, name: Seq<char>) -> Option<Dataset>
    decreases t.len(),
{
    if t.len() == 0 {
        None
    } else if t.last().0@ == name {
        Some(t.last().1)
    } else {
        lookup(t.drop_last(), name)
    }
}

proof fn lemma_lookup_update(t: Seq<(String, Dataset)>, i: int, name: String, df: Dataset, n: Seq<char>)
    requires
        0 <= i < t.len(),
        t[i].0@ == name@,
        names_of(t).no_duplicates(),
    ensures
        lookup(t.update(i, (name, df)), n) == if n == name@ { Some(df) } else { lookup(t, n) },
    decreases t.len(),
{
    let u = t.update(i, (name, df));
    if i == t.len() - 1 {
        assert(u.drop_last() =~= t.drop_last());
    } else {
        assert(u.drop_last() =~= t.drop_last().update(i, (name, df)));
        assert(names_of(t)[t.len() - 1] == t.last().0@);
        assert(names_of(t)[i] == t[i].0@);
        assert(names_of(t.drop_last()) =~= names_of(t).drop_last());
        lemma_lookup_update(t.drop_last(), i, name, df, n);
    }
}

proof fn lemma_lookup_found(t: Seq<(String, Dataset)>, n: Seq<char>)
    ensures
        lookup(t, n) is Some <==> names_of(t).contains(n),
    decreases t.len(),
{
    if t.len() > 0 {
        lemma_lookup_found(t.drop_last(), n);
        assert(names_of(t.drop_last()) =~= names_of(t).drop_last());
        assert(names_of(t)[t.len() - 1] == t.last().0@);
        if names_of(t).contains(n) && t.last().0@ != n {
            let k = choose|k: int| 0 <= k < names_of(t).len() && names_of(t)[k] == n;
            assert(names_of(t).drop_last()[k] == n);
        }
    }
}

proof fn lemma_lookup_at(t: Seq<(String, Dataset)>, i: int)
    requires
        0 <= i < t.len(),
        names_of(t).no_duplicates(),
    ensures
        lookup(t, t[i].0@) == Some(t[i].1),
    decreases t.len(),
{
    if i < t.len() - 1 {
        assert(names_of(t)[t.len() - 1] == t.last().0@);
        assert(names_of(t)[i] == t[i].0@);
        assert(names_of(t.drop_last()) =~= names_of(t).drop_last());
        lemma_lookup_at(t.drop_last(), i);
    }
}

impl Default for DataState {
    fn default() -> (r: DataState)
        ensures
            r.wf(),
            r.table_names().len() == 0,
    {
        DataState::new()
    }
}

impl DataState {
    /// The table names, in load order.
    pub closed spec fn table_names(&self) -> Seq<Seq<char>> {
        names_of(self.tables@)
    }

    /// The dataset stored under `name`.
    pub closed spec fn dataset(&self, name: Seq<char>) -> Option<Dataset> {
        lookup(self.tables@, name)
    }

    /// The active table's name, if any.
    pub closed spec fn active(&self) -> Option<Seq<char>> {
        match self.active_table {
            Some(a) => Some(a@),
            None => None,
        }
    }

    pub closed spec fn path(&self) -> Option<Seq<char>> {
        match self.file_path {
            Some(a) => Some(a@),
            None => None,
        }
    }

    /// Names are unique, and the active table is one of them.
    pub closed spec fn wf(&self) -> bool {
        &&& self.table_names().no_duplicates()
        &&& (self.active() matches Some(a) ==> self.table_names().contains(a))
    }

    /// An empty store.
    pub fn new() -> (r: DataState)
        ensures
            r.wf(),
            r.table_names().len() == 0,
            r.active() is None,
            r.path() is None,
    {
        let r = DataState { tables: Vec::new(), active_table: None, file_path: None };
        assert(r.table_names() =~= Seq::<Seq<char>>::empty());
        r
    }

    fn position(&self, name: &String) -> (r: Option<usize>)
        ensures
            r matches Some(i) ==> i < self.tables@.len() && self.table_names()[i as int] == name@,
            r is None ==> !self.table_names().contains(name@),
    {
        let mut i: usize = 0;
        while i < self.tables.len()
            invariant
                i <= self.tables@.len(),
                forall|k: int| 0 <= k < i ==> self.table_names()[k] != name@,
            decreases self.tables@.len() - i,
        {
            if self.tables[i].0 == *name {
                return Some(i);
            }
            i = i + 1;
        }
        None
    }

    /// Adds a table, or replaces the one of that name; a new name goes last in the order.
    pub fn add_dataframe(&mut self, name: String, df: Dataset)
        requires
            old(self).wf(),
        ensures
            final(self).wf(),
            old(self).table_names().contains(name@) ==> final(self).table_names() == old(self).table_names(),
            !old(self).table_names().contains(name@) ==> final(self).table_names() == old(self).table_names().push(name@),
            final(self).dataset(name@) == Some(df),
            forall|n: Seq<char>| n != name@ ==> #[trigger] final(self).dataset(n) == old(self).dataset(n),
            final(self).active() == old(self).active(),
            final(self).path() == old(self).path(),
    {
        let ghost t0 = self.tables@;
        let ghost nm = name;
        let ghost d0 = df;
        match self.position(&name) {
            Some(i) => {
                let ghost before = self.table_names();
                self.tables.set(i, (name, df));
                assert(self.table_names() =~= before);
                assert forall|n: Seq<char>| #[trigger] lookup(self.tables@, n) == (if n == nm@ { Some(d0) } else { lookup(t0, n) }) by {
                    lemma_lookup_update(t0, i as int, nm, d0, n);
                    assert(self.tables@ == t0.update(i as int, (nm, d0)));
                }
            },
            None => {
                let ghost before = self.table_names();
                self.tables.push((name, df));
                assert(self.table_names() =~= before.push(name@));
                assert(self.tables@.drop_last() =~= t0);
                assert(self.table_names().no_duplicates()) by {
                    assert forall|a: int, b: int| 0 <= a < b < self.table_names().len() implies self.table_names()[a]
                        != self.table_names()[b] by {
                        if b == before.len() {
                            assert(before[a] == self.table_names()[a]);
                        }
                    }
                }
                assert(self.active() matches Some(x) ==> self.table_names().contains(x)) by {
                    if self.active() is Some {
                        let x = self.active()->Some_0;
                        let k = choose|k: int| 0 <= k < before.len() && before[k] == x;
                        assert(self.table_names()[k] == x);
                    }
                }
            },
        }
    }

    /// Makes `name` the active table; an unknown name is refused with a message.
    pub fn set_active_table(&mut self, name: String) -> (r: Result<(), String>)
        requires
            old(self).wf(),
        ensures
            final(self).wf(),
            final(self).table_names() == old(self).table_names(),
            forall|n: Seq<char>| #[trigger] final(self).dataset(n) == old(self).dataset(n),
            final(self).path() == old(self).path(),
            r is Ok <==> old(self).table_names().contains(name@),
            r is Ok ==> final(self).active() == Some(name@),
            r matches Err(m) ==> final(self).active() == old(self).active() && m@ == "Table '"@ + name@ + "' not found"@,
    {
        if self.position(&name).is_some() {
            self.active_table = Some(name);
            Ok(())
        } else {
            proof {
                reveal_strlit("Table '");
                reveal_strlit("' not found");
            }
            let mut m = String::from_str("Table '");
            m.append(name.as_str());
            m.append("' not found");
            Err(m)
        }
    }

    /// The active table.
    pub fn get_active_dataframe(&self) -> (r: Option<&Dataset>)
        requires
            self.wf(),
        ensures
            match r {
                Some(d) => self.active() is Some && self.dataset(self.active()->Some_0) == Some(*d),
                None => self.active() is None,
            },
    {
        match &self.active_table {
            Some(a) => self.get_dataframe(a),
            None => None,
        }
    }

    /// The table named `name`.
    pub fn get_dataframe(&self, name: &String) -> (r: Option<&Dataset>)
        requires
            self.wf(),
        ensures
            match r {
                Some(d) => self.dataset(name@) == Some(*d),
                None => self.dataset(name@) is None && !self.table_names().contains(name@),
            },
    {
        match self.position(name) {
            Some(i) => {
                proof {
                    lemma_lookup_at(self.tables@, i as int);
                }
                Some(&self.tables[i].1)
            },
            None => {
                proof {
                    lemma_lookup_found(self.tables@, name@);
                }
                None
            },
        }
    }

    /// The table names, in load order.
    pub fn get_tables(&self) -> (r: Vec<String>)
        ensures
            r@.map_values(|s: String| s@) == self.table_names(),
    {
        let mut r: Vec<String> = Vec::new();
        let mut i: usize = 0;
        while i < self.tables.len()
            invariant
                i <= self.tables@.len(),
                r@.len() == i,
                forall|k: int| 0 <= k < i ==> #[trigger] r@[k]@ == self.table_names()[k],
            decreases self.tables@.len() - i,
        {
            r.push(self.tables[i].0.clone());
            i = i + 1;
        }
        assert(r@.map_values(|s: String| s@) =~= self.table_names());
        r
    }

    pub fn set_file_path(&mut self, path: String)
        requires
            old(self).wf(),
        ensures
            final(self).wf(),
            final(self).path() == Some(path@),
            final(self).table_names() == old(self).table_names(),
            forall|n: Seq<char>| #[trigger] final(self).dataset(n) == old(self).dataset(n),
            final(self).active() == old(self).active(),
    {
        self.file_path = Some(path);
    }

    pub fn get_file_path(&self) -> (r: Option<&String>)
        ensures
            match r {
                Some(p) => self.path() == Some(p@),
                None => self.path() is None,
            },
    {
        self.file_path.as_ref()
    }

    /// Forgets every table, the active one and the file.
    pub fn clear(&mut self)
        ensures
            final(self).wf(),
            final(self).table_names().len() == 0,
            forall|n: Seq<char>| #[trigger] final(self).dataset(n) is None,
            final(self).active() is None,
            final(self).path() is None,
    {
        self.tables = Vec::new();
        self.active_table = None;
        self.file_path = None;
        assert(self.table_names() =~= Seq::<Seq<char>>::empty());
    }

    /// Whether any table is loaded.
    pub fn has_data(&self) -> (r: bool)
        ensures
            r == (self.table_names().len() > 0),
    {
        self.tables.len() > 0
    }
}

} // verus!
