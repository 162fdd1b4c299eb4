use vstd::prelude::*;

verus! {

/// Outcome recorded for one executed command step, readable by later step
/// references.
#[derive(Debug)]
pub struct StepResult {
    pub success: bool,
    pub data: String,
    pub status: u32,
    pub message: String,
}

/// Model of a step result, over character sequences.
pub ghost struct ResultModel {
    pub success: bool,
    pub data: Seq<char>,
    pub status: u32,
    pub message: Seq<char>,
}

pub open spec fn res_model(r: StepResult) -> ResultModel {
    ResultModel { success: r.success, data: r.data@, status: r.status, message: r.message@ }
}

impl StepResult {
    pub fn new(success: bool, data: String, status: u32, message: String) -> (r: StepResult)
        ensures
            res_model(r) == (ResultModel { success, data: data@, status, message: message@ }),
    {
        StepResult { success, data, status, message }
    }
}

/// The state one program execution works on: the variable environment, the
/// step-result table, and the trace produced so far.
pub ghost struct EState {
    pub env: Map<Seq<char>, Seq<char>>,
    pub results: Map<u32, ResultModel>,
    pub trace: Seq<Seq<char>>,
}

impl EState {
    /// The empty state a fresh execution starts from.
    pub open spec fn init() -> EState {
        EState { env: Map::empty(), results: Map::empty(), trace: Seq::empty() }
    }
}

// ---------------------------------------------------------------------------
// Environment and result table as association vectors
// ---------------------------------------------------------------------------
/// The mapping an association vector of variable bindings denotes: the last
/// write to a name wins.
pub open spec fn env_of(v: Seq<(String, String)>) -> Map<Seq<char>, Seq<char>>
    decreases v.len(),
{
    if v.len() == 0 {
        Map::empty()
    } else {
        env_of(v.drop_last()).insert(v.last().0@, v.last().1@)
    }
}

/// The mapping an association vector of step results denotes: the last
/// write to an id wins.
pub open spec fn results_of(v: Seq<(u32, StepResult)>) -> Map<u32, ResultModel>
    decreases v.len(),
{
    if v.len() == 0 {
        Map::empty()
    } else {
        results_of(v.drop_last()).insert(v.last().0, res_model(v.last().1))
    }
}

pub proof fn lemma_env_last_match(v: Seq<(String, String)>, k: Seq<char>, i: int)
    requires
        0 <= i < v.len(),
        v[i].0@ == k,
        forall|j: int| i < j < v.len() ==> v[j].0@ != k,
    ensures
        env_of(v).contains_key(k),
        env_of(v)[k] == v[i].1@,
    decreases v.len(),
{
    if i == v.len() - 1 {
    } else {
        assert(v.drop_last()[i] == v[i]);
        lemma_env_last_match(v.drop_last(), k, i);
        assert(v.last().0@ != k);
    }
}

pub proof fn lemma_env_no_match(v: Seq<(String, String)>, k: Seq<char>)
    requires
        forall|j: int| 0 <= j < v.len() ==> v[j].0@ != k,
    ensures
        !env_of(v).contains_key(k),
    decreases v.len(),
{
    if v.len() > 0 {
        assert(forall|j: int| 0 <= j < v.len() - 1 ==> v.drop_last()[j] == v[j]);
        lemma_env_no_match(v.drop_last(), k);
    }
}

pub proof fn lemma_results_last_match(v: Seq<(u32, StepResult)>, k: u32, i: int)
    requires
        0 <= i < v.len(),
        v[i].0 == k,
        forall|j: int| i < j < v.len() ==> v[j].0 != k,
    ensures
        results_of(v).contains_key(k),
        results_of(v)[k] == res_model(v[i].1),
    decreases v.len(),
{
    if i == v.len() - 1 {
    } else {
        assert(v.drop_last()[i] == v[i]);
        lemma_results_last_match(v.drop_last(), k, i);
        assert(v.last().0 != k);
    }
}

pub proof fn lemma_results_no_match(v: Seq<(u32, StepResult)>, k: u32)
    requires
        forall|j: int| 0 <= j < v.len() ==> v[j].0 != k,
    ensures
        !results_of(v).contains_key(k),
    decreases v.len(),
{
    if v.len() > 0 {
        assert(forall|j: int| 0 <= j < v.len() - 1 ==> v.drop_last()[j] == v[j]);
        lemma_results_no_match(v.drop_last(), k);
    }
}

} // verus!
