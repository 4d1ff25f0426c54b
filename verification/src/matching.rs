//! Putting workloads read back from the grid in the order a deployment lists
//! them: each list is sorted, stably, by the position its items' names have
//! in the deployment.

use vstd::prelude::*;

use crate::text::str_eq;
use crate::workloads::{Deployment, Disk, Volume, QSFS, VM, VMLight, ZDB};

verus! {

/// Something with a name.
pub trait Named {
    spec fn spec_name(&self) -> Seq<char>;

    fn name_str(&self) -> (r: &str)
        ensures
            r@ == self.spec_name(),
    ;
}

impl Named for Disk {
    open spec fn spec_name(&self) -> Seq<char> {
        self.name@
    }

    fn name_str(&self) -> (r: &str) {
        self.name.as_str()
    }
}

impl Named for Volume {
    open spec fn spec_name(&self) -> Seq<char> {
        self.name@
    }

    fn name_str(&self) -> (r: &str) {
        self.name.as_str()
    }
}

impl Named for QSFS {
    open spec fn spec_name(&self) -> Seq<char> {
        self.name@
    }

    fn name_str(&self) -> (r: &str) {
        self.name.as_str()
    }
}

impl Named for ZDB {
    open spec fn spec_name(&self) -> Seq<char> {
        self.name@
    }

    fn name_str(&self) -> (r: &str) {
        self.name.as_str()
    }
}

impl Named for VM {
    open spec fn spec_name(&self) -> Seq<char> {
        self.name@
    }

    fn name_str(&self) -> (r: &str) {
        self.name.as_str()
    }
}

impl Named for VMLight {
    open spec fn spec_name(&self) -> Seq<char> {
        self.name@
    }

    fn name_str(&self) -> (r: &str) {
        self.name.as_str()
    }
}

/// The rank of a name no item of the deployment carries.
pub const UNKNOWN_RANK: u64 = 10000;

/// The rank recorded last for `name` among `ranks`, or [`UNKNOWN_RANK`].
pub open spec fn rank_of(ranks: Seq<(Seq<char>, u64)>, name: Seq<char>) -> u64
    decreases ranks.len(),
{
    if ranks.len() == 0 {
        UNKNOWN_RANK
    } else if ranks.last().0 == name {
        ranks.last().1
    } else {
        rank_of(ranks.drop_last(), name)
    }
}

/// The ranks of the names of `items`: position plus `offset`.
pub open spec fn ranked<T: Named>(items: Seq<T>, offset: int) -> Seq<(Seq<char>, u64)> {
    Seq::new(items.len(), |i: int| (items[i].spec_name(), (i + offset) as u64))
}

/// The ranks a deployment gives names: disks first, then volumes, qsfs and
/// zdbs, counted on from each other; VMs from 1000 and light VMs from 2000.
/// A name given twice keeps its later rank.
pub open spec fn deployment_ranks(d: Deployment) -> Seq<(Seq<char>, u64)> {
    let nd = d.disks@.len() as int;
    let nv = d.volumes@.len() as int;
    let nq = d.qsfs@.len() as int;
    ranked(d.disks@, 0) + ranked(d.volumes@, nd) + ranked(d.qsfs@, nd + nv) + ranked(d.zdbs@, nd + nv + nq)
        + ranked(d.vms@, 1000) + ranked(d.vms_light@, 2000)
}

/// `x` placed after every item of `s`, from the back, whose rank does not
/// exceed its own.
pub open spec fn insert_ranked<T: Named>(s: Seq<T>, x: T, ranks: Seq<(Seq<char>, u64)>) -> Seq<T>
    decreases s.len(),
{
    if s.len() == 0 {
        seq![x]
    } else if rank_of(ranks, s.last().spec_name()) <= rank_of(ranks, x.spec_name()) {
        s.push(x)
    } else {
        insert_ranked(s.drop_last(), x, ranks).push(s.last())
    }
}

/// `s` sorted stably by the ranks of its names.
pub open spec fn sorted_by_rank<T: Named>(s: Seq<T>, ranks: Seq<(Seq<char>, u64)>) -> Seq<T>
    decreases s.len(),
{
    if s.len() == 0 {
        Seq::empty()
    } else {
        insert_ranked(sorted_by_rank(s.drop_last(), ranks), s.last(), ranks)
    }
}

/// `s` is ordered by the ranks of its names.
pub open spec fn rank_ordered<T: Named>(s: Seq<T>, ranks: Seq<(Seq<char>, u64)>) -> bool {
    forall|i: int, j: int| 0 <= i < j < s.len() ==> rank_of(ranks, #[trigger] s[i].spec_name()) <= rank_of(ranks, #[trigger] s[j].spec_name())
}

proof fn lemma_insert_ranked_keeps_order<T: Named>(s: Seq<T>, x: T, ranks: Seq<(Seq<char>, u64)>)
    requires
        rank_ordered(s, ranks),
    ensures
        rank_ordered(insert_ranked(s, x, ranks), ranks),
        insert_ranked(s, x, ranks).to_multiset() == s.to_multiset().insert(x),
        forall|i: int| 0 <= i < insert_ranked(s, x, ranks).len() ==> (#[trigger] insert_ranked(s, x, ranks)[i] == x || s.contains(insert_ranked(s, x, ranks)[i])),
    decreases s.len(),
{
    broadcast use vstd::seq_lib::group_to_multiset_ensures;
    let r = insert_ranked(s, x, ranks);
    if s.len() == 0 {
        assert(seq![x] =~= Seq::<T>::empty().push(x));
    } else if rank_of(ranks, s.last().spec_name()) <= rank_of(ranks, x.spec_name()) {
        assert forall|i: int, j: int| 0 <= i < j < r.len() implies rank_of(ranks, #[trigger] r[i].spec_name()) <= rank_of(ranks, #[trigger] r[j].spec_name()) by {
            if j == s.len() {
                if i < s.len() - 1 {
                    assert(rank_of(ranks, s[i].spec_name()) <= rank_of(ranks, s[s.len() - 1].spec_name()));
                }
            }
        }
        assert forall|i: int| 0 <= i < r.len() implies (#[trigger] r[i] == x || s.contains(r[i])) by {
            if i < s.len() {
                assert(s[i] == r[i]);
            }
        }
    } else {
        let t = s.drop_last();
        let last = s.last();
        assert forall|i: int, j: int| 0 <= i < j < t.len() implies rank_of(ranks, #[trigger] t[i].spec_name()) <= rank_of(ranks, #[trigger] t[j].spec_name()) by {
            assert(t[i] == s[i] && t[j] == s[j]);
        }
        lemma_insert_ranked_keeps_order(t, x, ranks);
        let u = insert_ranked(t, x, ranks);
        assert(r == u.push(last));
        assert forall|i: int| 0 <= i < u.len() implies rank_of(ranks, #[trigger] u[i].spec_name()) <= rank_of(ranks, last.spec_name()) by {
            if u[i] != x {
                assert(t.contains(u[i]));
                let k = choose|k: int| 0 <= k < t.len() && t[k] == u[i];
                assert(t[k] == s[k]);
                assert(rank_of(ranks, s[k].spec_name()) <= rank_of(ranks, s[s.len() - 1].spec_name()));
            }
        }
        assert forall|i: int, j: int| 0 <= i < j < r.len() implies rank_of(ranks, #[trigger] r[i].spec_name()) <= rank_of(ranks, #[trigger] r[j].spec_name()) by {
            if j == u.len() {
                assert(r[i] == u[i]);
            } else {
                assert(r[i] == u[i] && r[j] == u[j]);
            }
        }
        assert forall|i: int| 0 <= i < r.len() implies (#[trigger] r[i] == x || s.contains(r[i])) by {
            if i < u.len() {
                assert(r[i] == u[i]);
                if u[i] != x {
                    let k = choose|k: int| 0 <= k < t.len() && t[k] == u[i];
                    assert(s[k] == u[i]);
                }
            } else {
                assert(s[s.len() - 1] == r[i]);
            }
        }
        assert(s =~= t.push(last));
    }
}

/// Matching keeps every item, and orders them by rank: the sorted list is a
/// permutation of the given one in which ranks never decrease.
pub proof fn law_matching_sorts_by_rank<T: Named>(items: Seq<T>, ranks: Seq<(Seq<char>, u64)>)
    ensures
        sorted_by_rank(items, ranks).to_multiset() == items.to_multiset(),
        rank_ordered(sorted_by_rank(items, ranks), ranks),
    decreases items.len(),
{
    broadcast use vstd::seq_lib::group_to_multiset_ensures;
    if items.len() > 0 {
        law_matching_sorts_by_rank(items.drop_last(), ranks);
        lemma_insert_ranked_keeps_order(sorted_by_rank(items.drop_last(), ranks), items.last(), ranks);
        assert(items =~= items.drop_last().push(items.last()));
    } else {
        assert(items.to_multiset() =~= Seq::<T>::empty().to_multiset());
    }
}

proof fn lemma_insert_ranked_at<T: Named>(s: Seq<T>, x: T, ranks: Seq<(Seq<char>, u64)>, k: int)
    requires
        0 <= k <= s.len(),
        forall|j: int| k <= j < s.len() ==> rank_of(ranks, #[trigger] s[j].spec_name()) > rank_of(ranks, x.spec_name()),
        k > 0 ==> rank_of(ranks, s[k - 1].spec_name()) <= rank_of(ranks, x.spec_name()),
    ensures
        insert_ranked(s, x, ranks) == s.insert(k, x),
    decreases s.len(),
{
    if s.len() == k {
        assert(s.insert(k, x) =~= s.push(x));
        if s.len() > 0 {
            assert(s.last() == s[k - 1]);
        }
    } else {
        let t = s.drop_last();
        assert(rank_of(ranks, s[s.len() - 1].spec_name()) > rank_of(ranks, x.spec_name()));
        assert forall|j: int| k <= j < t.len() implies rank_of(ranks, #[trigger] t[j].spec_name()) > rank_of(ranks, x.spec_name()) by {
            assert(t[j] == s[j]);
        }
        if k > 0 {
            assert(t[k - 1] == s[k - 1]);
        }
        lemma_insert_ranked_at(t, x, ranks, k);
        assert(t.insert(k, x).push(s.last()) =~= s.insert(k, x));
    }
}

struct Ranks {
    entries: Vec<(String, u64)>,
}

impl Ranks {
    spec fn view_ranks(&self) -> Seq<(Seq<char>, u64)> {
        self.entries@.map_values(|e: (String, u64)| (e.0@, e.1))
    }

    fn push_items<T: Named>(&mut self, items: &Vec<T>, offset: u64)
        requires
            offset + items@.len() <= u64::MAX,
        ensures
            final(self).view_ranks() == old(self).view_ranks() + ranked(items@, offset as int),
    {
        let ghost start = self.view_ranks();
        let mut i: usize = 0;
        while i < items.len()
            invariant
                i <= items@.len(),
                offset + items@.len() <= u64::MAX,
                self.view_ranks() == start + ranked(items@, offset as int).take(i as int),
            decreases items.len() - i,
        {
            let name = String::from_str(items[i].name_str());
            let ghost before = self.view_ranks();
            self.entries.push((name, offset + i as u64));
            proof {
                assert(self.view_ranks() =~= before.push((items@[i as int].spec_name(), (offset + i) as u64)));
                assert(ranked(items@, offset as int).take(i + 1) =~= ranked(items@, offset as int).take(i as int).push(
                    (items@[i as int].spec_name(), (i + offset) as u64),
                ));
            }
            i = i + 1;
        }
        assert(ranked(items@, offset as int).take(items@.len() as int) =~= ranked(items@, offset as int));
    }

    fn rank(&self, name: &str) -> (r: u64)
        ensures
            r == rank_of(self.view_ranks(), name@),
    {
        let ghost rs = self.view_ranks();
        let mut i: usize = self.entries.len();
        assert(rs.take(i as int) =~= rs);
        while i > 0
            invariant
                i <= self.entries@.len(),
                rs == self.view_ranks(),
                rs.len() == self.entries@.len(),
                rank_of(rs, name@) == rank_of(rs.take(i as int), name@),
            decreases i,
        {
            assert(rs.take(i as int).drop_last() =~= rs.take(i - 1));
            assert(rs[i - 1] == (self.entries@[i - 1].0@, self.entries@[i - 1].1));
            if str_eq(self.entries[i - 1].0.as_str(), name) {
                return self.entries[i - 1].1;
            }
            i = i - 1;
        }
        UNKNOWN_RANK
    }

    fn sort<T: Named>(&self, items: Vec<T>) -> (r: Vec<T>)
        ensures
            r@ == sorted_by_rank(items@, self.view_ranks()),
    {
        let ghost rs = self.view_ranks();
        let ghost input = items@;
        let mut rest = items;
        let mut out: Vec<T> = Vec::new();
        let n = rest.len();
        let mut i: usize = 0;
        assert(input.take(0) =~= Seq::<T>::empty());
        while i < n
            invariant
                i <= n,
                n == input.len(),
                rest@ == input.skip(i as int),
                out@ == sorted_by_rank(input.take(i as int), rs),
                rs == self.view_ranks(),
            decreases n - i,
        {
            let x = rest.remove(0);
            proof {
                assert(x == input[i as int]);
                assert(rest@ =~= input.skip(i + 1));
                assert(input.take(i + 1).drop_last() =~= input.take(i as int));
                assert(input.take(i + 1).last() == x);
            }
            let key = self.rank(x.name_str());
            let mut k: usize = out.len();
            while k > 0
                invariant
                    k <= out@.len(),
                    rs == self.view_ranks(),
                    key == rank_of(rs, x.spec_name()),
                    forall|j: int| k <= j < out@.len() ==> rank_of(rs, #[trigger] out@[j].spec_name()) > key,
                ensures
                    k <= out@.len(),
                    forall|j: int| k <= j < out@.len() ==> rank_of(rs, #[trigger] out@[j].spec_name()) > key,
                    k > 0 ==> rank_of(rs, out@[k - 1].spec_name()) <= key,
                decreases k,
            {
                let before = self.rank(out[k - 1].name_str());
                if before <= key {
                    break;
                }
                k = k - 1;
            }
            proof {
                lemma_insert_ranked_at(out@, x, rs, k as int);
            }
            out.insert(k, x);
            i = i + 1;
        }
        assert(input.take(n as int) =~= input);
        out
    }
}

impl Deployment {
    /// Replaces the deployment's workload lists by the given ones, each
    /// sorted stably by the rank its names have in the deployment as it was
    /// (see [`deployment_ranks`]); names it does not hold go last.
    pub fn match_deployments(
        &mut self,
        disks: Vec<Disk>,
        qsfs: Vec<QSFS>,
        zdbs: Vec<ZDB>,
        vms: Vec<VM>,
        vms_light: Vec<VMLight>,
        volumes: Vec<Volume>,
    )
        requires
            old(self).disks@.len() + old(self).volumes@.len() + old(self).qsfs@.len() + old(self).zdbs@.len()
                + old(self).vms@.len() + old(self).vms_light@.len() + 2000 <= u64::MAX,
        ensures
            final(self).disks@ == sorted_by_rank(disks@, deployment_ranks(*old(self))),
            final(self).qsfs@ == sorted_by_rank(qsfs@, deployment_ranks(*old(self))),
            final(self).zdbs@ == sorted_by_rank(zdbs@, deployment_ranks(*old(self))),
            final(self).vms@ == sorted_by_rank(vms@, deployment_ranks(*old(self))),
            final(self).vms_light@ == sorted_by_rank(vms_light@, deployment_ranks(*old(self))),
            final(self).volumes@ == sorted_by_rank(volumes@, deployment_ranks(*old(self))),
            final(self).name == old(self).name,
            final(self).node_id == old(self).node_id,
            final(self).solution_type == old(self).solution_type,
            final(self).solution_provider == old(self).solution_provider,
            final(self).network_name == old(self).network_name,
            final(self).node_deployment_id == old(self).node_deployment_id,
            final(self).contract_id == old(self).contract_id,
            final(self).ip_range == old(self).ip_range,
    {
        let nd = self.disks.len() as u64;
        let nv = self.volumes.len() as u64;
        let nq = self.qsfs.len() as u64;
        let mut ranks = Ranks { entries: Vec::new() };
        assert(ranks.view_ranks() =~= Seq::<(Seq<char>, u64)>::empty());
        ranks.push_items(&self.disks, 0);
        ranks.push_items(&self.volumes, nd);
        ranks.push_items(&self.qsfs, nd + nv);
        ranks.push_items(&self.zdbs, nd + nv + nq);
        ranks.push_items(&self.vms, 1000);
        ranks.push_items(&self.vms_light, 2000);
        assert(ranks.view_ranks() =~= deployment_ranks(*self));
        self.disks = ranks.sort(disks);
        self.qsfs = ranks.sort(qsfs);
        self.zdbs = ranks.sort(zdbs);
        self.vms = ranks.sort(vms);
        self.vms_light = ranks.sort(vms_light);
        self.volumes = ranks.sort(volumes);
    }
}

} // verus!
