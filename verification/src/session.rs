//! The entry point: sessions that know tables, and data frames over plans.

use std::sync::Arc;
use vstd::prelude::*;
use vstd::string::*;
use crate::buffer::immutable::share;
use crate::datasource::csv::{strings_view, CsvReadOptions, CsvTable};
use crate::datasource::TableProvider;
use crate::error::ToyDfError;
use crate::expr::Expr;
use crate::logical_plan::plan::{Filter, LogicalPlan, PlanModel, Projection, Scan};
use crate::physical_plan::plan::RecordBatchStream;
use crate::physical_plan::planner::{supported, PhysicalPlanner};

verus! {

/// Values that name one or more files.
pub trait FilePaths {
    /// The file names, as character sequences.
    spec fn spec_file_paths(&self) -> Seq<Seq<char>>;

    /// The file names.
    fn file_paths(&self) -> (r: Vec<String>)
        ensures
            strings_view(r@) == self.spec_file_paths(),
    ;
}

impl FilePaths for String {
    open spec fn spec_file_paths(&self) -> Seq<Seq<char>> {
        seq![self@]
    }

    fn file_paths(&self) -> (r: Vec<String>) {
        let mut r: Vec<String> = Vec::new();
        r.push(self.clone());
        assert(strings_view(r@) =~= seq![self@]);
        r
    }
}

impl<'a> FilePaths for &'a str {
    open spec fn spec_file_paths(&self) -> Seq<Seq<char>> {
        seq![(*self)@]
    }

    fn file_paths(&self) -> (r: Vec<String>) {
        let mut r: Vec<String> = Vec::new();
        r.push(String::from_str(*self));
        assert(strings_view(r@) =~= seq![(*self)@]);
        r
    }
}

/// The tables of a list of named entries: each name to its table.
pub open spec fn tables_of(entries: Seq<(String, Arc<TableProvider>)>) -> Map<Seq<char>, TableProvider>
    decreases entries.len(),
{
    if entries.len() == 0 {
        Map::empty()
    } else {
        tables_of(entries.drop_last()).insert(entries.last().0@, *entries.last().1)
    }
}

/// No name occurs twice.
pub open spec fn distinct_names(entries: Seq<(String, Arc<TableProvider>)>) -> bool {
    forall|i: int, j: int| 0 <= i < j < entries.len() ==> #[trigger] entries[i].0@ != #[trigger] entries[j].0@
}

/// The names of the entries are the keys of their map, and each maps to its table.
proof fn lemma_tables_of(entries: Seq<(String, Arc<TableProvider>)>)
    requires
        distinct_names(entries),
    ensures
        forall|k: Seq<char>| #[trigger] tables_of(entries).contains_key(k) <==>
            exists|i: int| 0 <= i < entries.len() && entries[i].0@ == k,
        forall|i: int| 0 <= i < entries.len() ==>
            tables_of(entries)[#[trigger] entries[i].0@] == *entries[i].1,
    decreases entries.len(),
{
    if entries.len() > 0 {
        let prefix = entries.drop_last();
        assert(distinct_names(prefix)) by {
            assert forall|i: int, j: int| 0 <= i < j < prefix.len() implies
                #[trigger] prefix[i].0@ != #[trigger] prefix[j].0@ by {
                assert(prefix[i] == entries[i] && prefix[j] == entries[j]);
            }
        }
        lemma_tables_of(prefix);
        let last = entries.len() - 1;
        assert(tables_of(entries) == tables_of(prefix).insert(entries[last].0@, *entries[last].1));
        assert forall|k: Seq<char>| #[trigger] tables_of(entries).contains_key(k) <==>
            exists|i: int| 0 <= i < entries.len() && entries[i].0@ == k by {
            if tables_of(entries).contains_key(k) {
                if k == entries[last].0@ {
                } else {
                    assert(tables_of(prefix).contains_key(k));
                    let i = choose|i: int| 0 <= i < prefix.len() && prefix[i].0@ == k;
                    assert(entries[i] == prefix[i]);
                }
            }
            if exists|i: int| 0 <= i < entries.len() && entries[i].0@ == k {
                let i = choose|i: int| 0 <= i < entries.len() && entries[i].0@ == k;
                if i < last {
                    assert(prefix[i] == entries[i]);
                    assert(tables_of(prefix).contains_key(prefix[i].0@));
                }
            }
        }
        assert forall|i: int| 0 <= i < entries.len() implies
            tables_of(entries)[#[trigger] entries[i].0@] == *entries[i].1 by {
            if i < last {
                assert(prefix[i] == entries[i]);
                assert(entries[i].0@ != entries[last].0@);
            }
        }
    }
}

/// A table registered under a name is what a later lookup of that name
/// finds, and registering leaves the other names as they were: what
/// `register_table` gives `table` to read.
pub proof fn lemma_register_then_lookup(
    before: Map<Seq<char>, TableProvider>,
    name: Seq<char>,
    provider: TableProvider,
    other: Seq<char>,
)
    requires
        other != name,
    ensures
        before.insert(name, provider).contains_key(name),
        before.insert(name, provider)[name] == provider,
        before.insert(name, provider).contains_key(other) == before.contains_key(other),
        before.contains_key(other) ==> before.insert(name, provider)[other] == before[other],
{
}

/// The entry point: knows the registered tables by name.
pub struct SessionContext {
    tables: Vec<(String, Arc<TableProvider>)>,
}

impl SessionContext {
    /// Well-formed: no table name is registered twice.
    pub closed spec fn wf(&self) -> bool {
        distinct_names(self.tables@)
    }

    /// The registered tables, by name.
    pub closed spec fn spec_tables(&self) -> Map<Seq<char>, TableProvider> {
        tables_of(self.tables@)
    }

    /// A session without tables.
    pub fn new() -> (r: Self)
        ensures
            r.wf(),
            r.spec_tables() == Map::<Seq<char>, TableProvider>::empty(),
    {
        Self { tables: Vec::new() }
    }

    /// Position of the entry named `name`, if any.
    fn position(&self, name: &String) -> (r: Option<usize>)
        requires
            self.wf(),
        ensures
            match r {
                Some(i) => i < self.tables@.len() && self.tables@[i as int].0@ == name@,
                None => forall|i: int| 0 <= i < self.tables@.len() ==> self.tables@[i].0@ != name@,
            },
    {
        let mut i: usize = 0;
        while i < self.tables.len()
            invariant
                i <= self.tables@.len(),
                forall|k: int| 0 <= k < i ==> self.tables@[k].0@ != name@,
            decreases self.tables@.len() - i,
        {
            if self.tables[i].0 == *name {
                return Some(i);
            }
            i = i + 1;
        }
        None
    }

    /// A data frame over the CSV files `paths`.
    pub fn read_csv<P: FilePaths>(&self, paths: P, options: CsvReadOptions) -> (r: Result<DataFrame, ToyDfError>)
        ensures
            r matches Ok(df) && df.plan.model() matches PlanModel::Scan(TableProvider::Csv(t))
                && strings_view(t.source_paths@) == paths.spec_file_paths(),
    {
        let table = TableProvider::Csv(CsvTable { source_paths: paths.file_paths() });
        Ok(DataFrame { plan: Arc::new(LogicalPlan::Scan(Scan { table: Arc::new(table) })) })
    }

    /// Registers `provider` under `name`, replacing any table of that name.
    pub fn register_table(&mut self, name: String, provider: Arc<TableProvider>) -> (r: Result<(), ToyDfError>)
        requires
            old(self).wf(),
        ensures
            final(self).wf(),
            r is Ok,
            final(self).spec_tables() == old(self).spec_tables().insert(name@, *provider),
    {
        proof {
            lemma_tables_of(self.tables@);
        }
        let ghost before = self.tables@;
        let ghost key = name@;
        let ghost pv = provider;
        match self.position(&name) {
            Some(i) => {
                self.tables.set(i, (name, provider));
                proof {
                    let after = self.tables@;
                    assert(distinct_names(after)) by {
                        assert forall|a: int, b: int| 0 <= a < b < after.len() implies
                            #[trigger] after[a].0@ != #[trigger] after[b].0@ by {
                            if a != i && b != i {
                                assert(after[a] == before[a] && after[b] == before[b]);
                            } else if a == i {
                                assert(after[b] == before[b]);
                            } else {
                                assert(after[a] == before[a]);
                            }
                        }
                    }
                    lemma_tables_of(after);
                    assert(tables_of(after) =~= tables_of(before).insert(key, *pv)) by {
                        assert forall|k: Seq<char>| #[trigger] tables_of(after).contains_key(k) <==>
                            tables_of(before).insert(key, *pv).contains_key(k) by {
                            if tables_of(after).contains_key(k) {
                                let j = choose|j: int| 0 <= j < after.len() && after[j].0@ == k;
                                if j != i {
                                    assert(after[j] == before[j]);
                                }
                            }
                            if tables_of(before).contains_key(k) {
                                let j = choose|j: int| 0 <= j < before.len() && before[j].0@ == k;
                                if j != i {
                                    assert(after[j] == before[j]);
                                } else {
                                    assert(after[i as int].0@ == k);
                                }
                            }
                            if k == key {
                                assert(after[i as int].0@ == k);
                            }
                        }
                        assert forall|k: Seq<char>| #[trigger] tables_of(after).contains_key(k) implies
                            tables_of(after)[k] == tables_of(before).insert(key, *pv)[k] by {
                            let j = choose|j: int| 0 <= j < after.len() && after[j].0@ == k;
                            if j != i {
                                assert(after[j] == before[j]);
                                assert(tables_of(after)[after[j].0@] == *after[j].1);
                                assert(tables_of(before)[before[j].0@] == *before[j].1);
                            } else {
                                assert(tables_of(after)[after[j].0@] == *after[j].1);
                            }
                        }
                    }
                }
            },
            None => {
                self.tables.push((name, provider));
                proof {
                    let after = self.tables@;
                    assert(after.drop_last() =~= before);
                    assert(distinct_names(after)) by {
                        assert forall|a: int, b: int| 0 <= a < b < after.len() implies
                            #[trigger] after[a].0@ != #[trigger] after[b].0@ by {
                            if b < before.len() {
                                assert(after[a] == before[a] && after[b] == before[b]);
                            } else {
                                assert(after[a] == before[a]);
                            }
                        }
                    }
                }
            },
        }
        Ok(())
    }

    /// A data frame scanning the table registered under `name`.
    pub fn table(&self, name: String) -> (r: Result<DataFrame, ToyDfError>)
        requires
            self.wf(),
        ensures
            match r {
                Ok(df) => self.spec_tables().contains_key(name@)
                    && df.plan.model() == PlanModel::Scan(self.spec_tables()[name@]),
                Err(e) => !self.spec_tables().contains_key(name@) && e == ToyDfError::TableNotFound,
            },
    {
        proof {
            lemma_tables_of(self.tables@);
        }
        match self.position(&name) {
            Some(i) => {
                let provider = share(&self.tables[i].1);
                Ok(DataFrame { plan: Arc::new(LogicalPlan::Scan(Scan { table: provider })) })
            },
            None => Err(ToyDfError::TableNotFound),
        }
    }
}

/// A query under construction: a logical plan.
pub struct DataFrame {
    pub plan: Arc<LogicalPlan>,
}

impl DataFrame {
    /// The data frame of `exprs` computed over this one.
    pub fn select(self, exprs: Vec<Expr>) -> (r: DataFrame)
        ensures
            *r.plan == LogicalPlan::Projection(Projection { input: self.plan, exprs }),
    {
        DataFrame { plan: Arc::new(LogicalPlan::Projection(Projection { input: self.plan, exprs })) }
    }

    /// The rows of this data frame for which `expr` holds.
    pub fn filter(self, expr: Expr) -> (r: DataFrame)
        ensures
            *r.plan == LogicalPlan::Filter(Filter { input: self.plan, expr }),
    {
        DataFrame { plan: Arc::new(LogicalPlan::Filter(Filter { input: self.plan, expr })) }
    }

    /// Plans the query and runs it, giving the batches to show.
    pub fn show(&self) -> (r: Result<RecordBatchStream, ToyDfError>)
        requires
            supported(self.plan.model()),
        ensures
            r matches Ok(v) && v@.len() == if self.plan.model() is Scan { 0int } else { 1int },
    {
        let planner = PhysicalPlanner::new();
        let physical_plan = planner.create_physical_plan(share(&self.plan));
        physical_plan.unwrap().execute()
    }

    /// The logical plan, shared.
    pub fn logical_plan(&self) -> (r: Arc<LogicalPlan>)
        ensures
            *r == *self.plan,
    {
        share(&self.plan)
    }
}

} // verus!
