//! The concurrent map (`dashmap::DashMap`) in which the server keeps its agents,
//! keyed by owner and agent id.
use vstd::prelude::*;
use dashmap::DashMap;
use crate::agent_api::{AgentRecord, RecordView};

verus! {

#[verifier::external_type_specification]
#[verifier::external_body]
#[verifier::reject_recursive_types(K)]
#[verifier::reject_recursive_types(V)]
#[verifier::reject_recursive_types(S)]
pub struct ExDashMap<K, V, S>(DashMap<K, V, S>);

/// The agents a table holds: for each `(owner, agent id)` key, the record.
pub uninterp spec fn table_contents(m: DashMap<(String, String), AgentRecord>) -> Map<
    (Seq<char>, Seq<char>),
    RecordView,
>;

pub open spec fn keys_view(v: Seq<(String, String)>) -> Seq<(Seq<char>, Seq<char>)> {
    v.map_values(|k: (String, String)| (k.0@, k.1@))
}

/// A table without agents.
pub open spec fn no_agents() -> Map<(Seq<char>, Seq<char>), RecordView> {
    Map::empty()
}

/// `DashMap::new()`: an empty table.
#[verifier::external_body]
pub fn table_new() -> (m: DashMap<(String, String), AgentRecord>)
    ensures
        table_contents(m) == no_agents(),
{
    DashMap::new()
}

/// `DashMap::iter`, each entry handed out as a copy of its key: every key the
/// table holds, each once, in the table's own (unspecified) order. This holds
/// while no other thread changes the table, which the exclusive borrow that
/// every change here takes (and the lock the server keeps the store under)
/// rules out.
#[verifier::external_body]
pub fn table_keys(m: &DashMap<(String, String), AgentRecord>) -> (keys: Vec<(String, String)>)
    ensures
        keys_view(keys@).no_duplicates(),
        forall|k: (Seq<char>, Seq<char>)|
            table_contents(*m).dom().contains(k) <==> keys_view(keys@).contains(k),
{
    m.iter().map(|entry| entry.key().clone()).collect()
}

/// `DashMap::get`, the record handed out as a copy.
#[verifier::external_body]
pub fn table_get(m: &DashMap<(String, String), AgentRecord>, key: &(String, String)) -> (r: Option<
    AgentRecord,
>)
    ensures
        match r {
            Some(rec) => table_contents(*m).dom().contains((key.0@, key.1@)) && rec@
                == table_contents(*m)[(key.0@, key.1@)],
            None => !table_contents(*m).dom().contains((key.0@, key.1@)),
        },
{
    m.get(key).map(|entry| entry.value().duplicate())
}

/// `DashMap::insert`: the key now maps to the record, replacing any earlier one.
#[verifier::external_body]
pub fn table_insert(m: &mut DashMap<(String, String), AgentRecord>, key: (String, String), rec: AgentRecord)
    ensures
        table_contents(*final(m)) == table_contents(*old(m)).insert((key.0@, key.1@), rec@),
{
    m.insert(key, rec);
}

/// `DashMap::remove`: the key and its record leave the table; the record is handed back.
#[verifier::external_body]
pub fn table_remove(m: &mut DashMap<(String, String), AgentRecord>, key: &(String, String)) -> (r: Option<AgentRecord>)
    ensures
        table_contents(*final(m)) == table_contents(*old(m)).remove((key.0@, key.1@)),
        match r {
            Some(rec) => table_contents(*old(m)).dom().contains((key.0@, key.1@)) && rec@
                == table_contents(*old(m))[(key.0@, key.1@)],
            None => !table_contents(*old(m)).dom().contains((key.0@, key.1@)),
        },
{
    m.remove(key).map(|pair| pair.1)
}

} // verus!
