//! The external task list: the rows the scraper hands back, and the order
//! the rest of the tool expects them in.

use vstd::prelude::*;

verus! {

/// Credentials and endpoint of the external task-list service.
pub struct AuthConfig {
    pub login_url: String,
    pub username: String,
    pub password: String,
}

/// One task of the external task list.
pub struct PbsTask {
    pub id: i32,
    pub name: String,
}

impl PbsTask {
    /// An equal copy of the task (the name keeps it from being `Copy`).
    pub fn duplicate(&self) -> (r: PbsTask)
        ensures
            r == *self,
    {
        PbsTask { id: self.id, name: self.name.clone() }
    }
}

/// Tasks ordered by descending identifier (the newest first), as the task
/// list is presented: the same tasks, merely rearranged.
pub fn sort_tasks_by_id_desc(tasks: &Vec<PbsTask>) -> (r: Vec<PbsTask>)
    ensures
        r@.to_multiset() == tasks@.to_multiset(),
        forall|i: int| 0 <= i < r@.len() - 1 ==> (#[trigger] r@[i]).id >= r@[i + 1].id,
{
    broadcast use vstd::seq_lib::group_to_multiset_ensures;

    let mut out: Vec<PbsTask> = Vec::new();
    let mut i: usize = 0;
    proof {
        assert(tasks@.take(0) =~= Seq::<PbsTask>::empty());
        assert(out@.to_multiset() =~= tasks@.take(0).to_multiset());
    }
    while i < tasks.len()
        invariant
            i <= tasks@.len(),
            out@.to_multiset() == tasks@.take(i as int).to_multiset(),
            forall|p: int| 0 <= p < out@.len() - 1 ==> (#[trigger] out@[p]).id >= out@[p + 1].id,
        decreases tasks@.len() - i,
    {
        broadcast use vstd::seq_lib::group_to_multiset_ensures;

        let t = tasks[i].duplicate();
        let mut k: usize = 0;
        while k < out.len() && out[k].id >= t.id
            invariant
                k <= out@.len(),
                forall|j: int| 0 <= j < k ==> (#[trigger] out@[j]).id >= t.id,
            decreases out@.len() - k,
        {
            k = k + 1;
        }
        let ghost pre = out@;
        out.insert(k, t);
        proof {
            vstd::seq_lib::to_multiset_insert(pre, k as int, out@[k as int]);
            assert(tasks@.take(i as int + 1) =~= tasks@.take(i as int).push(tasks@[i as int]));
            assert(out@.to_multiset() =~= tasks@.take(i as int + 1).to_multiset());
            assert forall|p: int| 0 <= p < out@.len() - 1 implies (#[trigger] out@[p]).id
                >= out@[p + 1].id by {
                if p < k as int - 1 {
                    assert(out@[p] == pre[p] && out@[p + 1] == pre[p + 1]);
                } else if p == k as int - 1 {
                    assert(out@[p] == pre[p]);
                } else if p == k as int {
                    assert(out@[p + 1] == pre[p]);
                } else {
                    assert(out@[p] == pre[p - 1] && out@[p + 1] == pre[p]);
                }
            }
        }
        i = i + 1;
    }
    proof {
        assert(tasks@.take(tasks@.len() as int) =~= tasks@);
    }
    out
}

} // verus!
