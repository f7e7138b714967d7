//! Grouping hosts into per-environment buckets.
use vstd::prelude::*;
use crate::environment::{catalog_view, classify, classify_spec, environment_catalog, environments, strings_view};

verus! {

broadcast use vstd::seq_lib::group_seq_properties;

/// An environment name and the hosts classified into it.
pub type BucketModel = (Seq<char>, Seq<Seq<char>>);

/// Hosts that `catalog` classifies into `env`.
pub open spec fn in_env(catalog: Seq<Seq<char>>, env: Seq<char>) -> spec_fn(Seq<char>) -> bool {
    |h: Seq<char>| classify_spec(h, catalog) == Some(env)
}

/// Hosts that `catalog` classifies into some environment.
pub open spec fn is_matched(catalog: Seq<Seq<char>>) -> spec_fn(Seq<char>) -> bool {
    |h: Seq<char>| classify_spec(h, catalog) is Some
}

pub open spec fn has_key(r: Seq<BucketModel>, env: Seq<char>) -> bool {
    exists|k: int| 0 <= k < r.len() && #[trigger] r[k].0 == env
}

/// Appends `host` to the bucket of `env`, creating the bucket on first use.
pub open spec fn add_host(r: Seq<BucketModel>, env: Seq<char>, host: Seq<char>) -> Seq<BucketModel> {
    if has_key(r, env) {
        let k = choose|k: int| 0 <= k < r.len() && #[trigger] r[k].0 == env;
        r.update(k, (env, r[k].1.push(host)))
    } else {
        r.push((env, seq![host]))
    }
}

/// The buckets built from `hosts`, in order of first use.
pub open spec fn aggregate_spec(hosts: Seq<Seq<char>>, catalog: Seq<Seq<char>>) -> Seq<BucketModel>
    decreases hosts.len(),
{
    if hosts.len() == 0 {
        seq![]
    } else {
        let prev = aggregate_spec(hosts.drop_last(), catalog);
        match classify_spec(hosts.last(), catalog) {
            Some(env) => add_host(prev, env, hosts.last()),
            None => prev,
        }
    }
}

/// The number of hosts over all buckets.
pub open spec fn total_spec(r: Seq<BucketModel>) -> int
    decreases r.len(),
{
    if r.len() == 0 {
        0
    } else {
        total_spec(r.drop_last()) + r.last().1.len()
    }
}

pub open spec fn keys_distinct(r: Seq<BucketModel>) -> bool {
    forall|a: int, b: int| 0 <= a < r.len() && 0 <= b < r.len() && a != b ==> r[a].0 != r[b].0
}

proof fn lemma_total_update(r: Seq<BucketModel>, k: int, b: BucketModel)
    requires
        0 <= k < r.len(),
    ensures
        total_spec(r.update(k, b)) == total_spec(r) - r[k].1.len() + b.1.len(),
    decreases r.len(),
{
    let u = r.update(k, b);
    if k == r.len() - 1 {
        assert(u.drop_last() =~= r.drop_last());
    } else {
        lemma_total_update(r.drop_last(), k, b);
        assert(u.drop_last() =~= r.drop_last().update(k, b));
    }
}

/// Each bucket holds, in input order, exactly the hosts classified into its
/// environment; bucket names are distinct, so no host lands in two buckets;
/// every bucket is non-empty and every classified host has its bucket.
pub proof fn lemma_aggregate_buckets(hosts: Seq<Seq<char>>, catalog: Seq<Seq<char>>)
    ensures
        keys_distinct(aggregate_spec(hosts, catalog)),
        forall|k: int| 0 <= k < aggregate_spec(hosts, catalog).len() ==> {
            let b = #[trigger] aggregate_spec(hosts, catalog)[k];
            &&& b.1 == hosts.filter(in_env(catalog, b.0))
            &&& b.1.len() > 0
        },
        forall|env: Seq<char>|
            !has_key(aggregate_spec(hosts, catalog), env) ==> #[trigger] hosts.filter(in_env(catalog, env)).len() == 0,
        forall|k1: int, k2: int, h: Seq<char>|
            0 <= k1 < aggregate_spec(hosts, catalog).len() && 0 <= k2 < aggregate_spec(hosts, catalog).len()
                && #[trigger] aggregate_spec(hosts, catalog)[k1].1.contains(h)
                && #[trigger] aggregate_spec(hosts, catalog)[k2].1.contains(h) ==> k1 == k2,
    decreases hosts.len(),
{
    let r = aggregate_spec(hosts, catalog);
    if hosts.len() > 0 {
        let p = hosts.drop_last();
        let h = hosts.last();
        let r0 = aggregate_spec(p, catalog);
        lemma_aggregate_buckets(p, catalog);
        assert(hosts =~= p.push(h));
        match classify_spec(h, catalog) {
            None => {
                assert forall|env: Seq<char>| #[trigger] hosts.filter(in_env(catalog, env)) == p.filter(in_env(catalog, env)) by {
                    p.lemma_filter_push(h, in_env(catalog, env));
                }
            },
            Some(e) => {
                assert forall|env: Seq<char>| env != e implies #[trigger] hosts.filter(in_env(catalog, env)) == p.filter(in_env(catalog, env)) by {
                    p.lemma_filter_push(h, in_env(catalog, env));
                }
                p.lemma_filter_push(h, in_env(catalog, e));
                if has_key(r0, e) {
                    let k = choose|k: int| 0 <= k < r0.len() && #[trigger] r0[k].0 == e;
                    assert(r == r0.update(k, (e, r0[k].1.push(h))));
                    assert forall|env: Seq<char>| !has_key(r, env) implies #[trigger] hosts.filter(in_env(catalog, env)).len() == 0 by {
                        if has_key(r0, env) {
                            let j = choose|j: int| 0 <= j < r0.len() && #[trigger] r0[j].0 == env;
                            assert(r[j].0 == env);
                        }
                    }
                } else {
                    assert(r == r0.push((e, seq![h])));
                    assert(p.filter(in_env(catalog, e)).len() == 0);
                    assert(hosts.filter(in_env(catalog, e)) =~= seq![h]);
                    assert forall|env: Seq<char>| !has_key(r, env) implies #[trigger] hosts.filter(in_env(catalog, env)).len() == 0 by {
                        if has_key(r0, env) {
                            let j = choose|j: int| 0 <= j < r0.len() && #[trigger] r0[j].0 == env;
                            assert(r[j].0 == env);
                        }
                        assert(r[r.len() - 1].0 == e);
                    }
                }
            },
        }
        assert forall|k1: int, k2: int, x: Seq<char>|
            0 <= k1 < r.len() && 0 <= k2 < r.len() && #[trigger] r[k1].1.contains(x)
                && #[trigger] r[k2].1.contains(x) implies k1 == k2 by {
            let i1 = choose|i: int| 0 <= i < r[k1].1.len() && r[k1].1[i] == x;
            let i2 = choose|i: int| 0 <= i < r[k2].1.len() && r[k2].1[i] == x;
            hosts.lemma_filter_pred(in_env(catalog, r[k1].0), i1);
            hosts.lemma_filter_pred(in_env(catalog, r[k2].0), i2);
        }
    }
}

/// The total over all buckets is the number of classified hosts, which is at
/// most the number of hosts.
pub proof fn lemma_aggregate_total(hosts: Seq<Seq<char>>, catalog: Seq<Seq<char>>)
    ensures
        total_spec(aggregate_spec(hosts, catalog)) == hosts.filter(is_matched(catalog)).len(),
        total_spec(aggregate_spec(hosts, catalog)) <= hosts.len(),
    decreases hosts.len(),
{
    let r = aggregate_spec(hosts, catalog);
    if hosts.len() > 0 {
        let p = hosts.drop_last();
        let h = hosts.last();
        let r0 = aggregate_spec(p, catalog);
        lemma_aggregate_total(p, catalog);
        lemma_aggregate_buckets(p, catalog);
        assert(hosts =~= p.push(h));
        p.lemma_filter_push(h, is_matched(catalog));
        match classify_spec(h, catalog) {
            None => {},
            Some(e) => {
                if has_key(r0, e) {
                    let k = choose|k: int| 0 <= k < r0.len() && #[trigger] r0[k].0 == e;
                    assert(r == r0.update(k, (e, r0[k].1.push(h))));
                    lemma_total_update(r0, k, (e, r0[k].1.push(h)));
                } else {
                    assert(r == r0.push((e, seq![h])));
                    assert(r.drop_last() =~= r0);
                }
            },
        }
    } else {
        reveal(Seq::filter);
    }
    hosts.lemma_filter_len(is_matched(catalog));
}

/// The hosts classified into one environment, in input order.
#[derive(Debug, Clone, PartialEq, Eq)]
pub struct Bucket {
    pub env: String,
    pub hosts: Vec<String>,
}

impl View for Bucket {
    type V = BucketModel;

    open spec fn view(&self) -> BucketModel {
        (self.env@, strings_view(self.hosts@))
    }
}

/// Hosts grouped by environment; buckets appear in order of first use.
#[derive(Debug, Clone, PartialEq, Eq)]
pub struct EnvironmentReport {
    pub buckets: Vec<Bucket>,
}

impl View for EnvironmentReport {
    type V = Seq<BucketModel>;

    open spec fn view(&self) -> Seq<BucketModel> {
        self.buckets@.map_values(|b: Bucket| b@)
    }
}

impl EnvironmentReport {
    /// The number of hosts over all buckets.
    pub fn total(&self) -> (r: usize)
        requires
            total_spec(self@) <= usize::MAX,
        ensures
            r == total_spec(self@),
    {
        let ghost rv = self@;
        let mut sum: usize = 0;
        let mut k: usize = 0;
        while k < self.buckets.len()
            invariant
                k <= self.buckets@.len(),
                rv == self@,
                total_spec(rv) <= usize::MAX,
                sum == total_spec(rv.subrange(0, k as int)),
            decreases self.buckets@.len() - k,
        {
            proof {
                assert(rv.subrange(0, k + 1).drop_last() =~= rv.subrange(0, k as int));
                lemma_total_prefix(rv, k + 1);
            }
            sum = sum + self.buckets[k].hosts.len();
            k += 1;
        }
        proof {
            assert(rv.subrange(0, k as int) =~= rv);
        }
        sum
    }

    /// The hosts in the bucket of `env`, if that bucket exists.
    pub fn hosts_in(&self, env: &str) -> (r: Option<&Vec<String>>)
        ensures
            match r {
                Some(v) => exists|k: int|
                    0 <= k < self@.len() && #[trigger] self@[k].0 == env@ && self@[k].1 == strings_view(v@),
                None => !has_key(self@, env@),
            },
    {
        let name = env.to_owned();
        let mut k: usize = 0;
        while k < self.buckets.len()
            invariant
                k <= self.buckets@.len(),
                name@ == env@,
                forall|j: int| 0 <= j < k ==> self@[j].0 != env@,
            decreases self.buckets@.len() - k,
        {
            if self.buckets[k].env == name {
                assert(self@[k as int].0 == env@);
                return Some(&self.buckets[k].hosts);
            }
            k += 1;
        }
        None
    }
}

proof fn lemma_total_prefix(r: Seq<BucketModel>, n: int)
    requires
        0 <= n <= r.len(),
    ensures
        total_spec(r.subrange(0, n)) <= total_spec(r),
    decreases r.len() - n,
{
    if n < r.len() {
        lemma_total_prefix(r, n + 1);
        assert(r.subrange(0, n + 1).drop_last() =~= r.subrange(0, n));
    } else {
        assert(r.subrange(0, n) =~= r);
    }
}

/// Groups `hosts` by the environment `catalog` gives each; hosts without an
/// environment are left out.
pub fn aggregate(hosts: &Vec<String>, catalog: &[&str]) -> (r: EnvironmentReport)
    ensures
        r@ == aggregate_spec(strings_view(hosts@), catalog_view(catalog@)),
        total_spec(r@) == strings_view(hosts@).filter(is_matched(catalog_view(catalog@))).len(),
        total_spec(r@) <= hosts@.len(),
{
    let ghost hv = strings_view(hosts@);
    let ghost cv = catalog_view(catalog@);
    let mut buckets: Vec<Bucket> = Vec::new();
    let mut i: usize = 0;
    while i < hosts.len()
        invariant
            i <= hosts@.len(),
            hv == strings_view(hosts@),
            cv == catalog_view(catalog@),
            buckets@.map_values(|b: Bucket| b@) == aggregate_spec(hv.subrange(0, i as int), cv),
        decreases hosts@.len() - i,
    {
        let ghost before = buckets@.map_values(|b: Bucket| b@);
        proof {
            lemma_aggregate_buckets(hv.subrange(0, i as int), cv);
            assert(hv.subrange(0, i + 1).drop_last() =~= hv.subrange(0, i as int));
        }
        let host = &hosts[i];
        match classify(host.as_str(), catalog) {
            None => {},
            Some(env) => {
                let name = env.to_owned();
                let mut k: usize = 0;
                while k < buckets.len() && !(buckets[k].env == name)
                    invariant
                        k <= buckets@.len(),
                        before == buckets@.map_values(|b: Bucket| b@),
                        forall|j: int| 0 <= j < k ==> before[j].0 != name@,
                    decreases buckets@.len() - k,
                {
                    k += 1;
                }
                if k < buckets.len() {
                    let mut b = buckets.remove(k);
                    b.hosts.push(host.clone());
                    buckets.insert(k, b);
                    proof {
                        assert(before[k as int].0 == name@);
                        assert(strings_view(b.hosts@) =~= before[k as int].1.push(host@));
                        assert(buckets@.map_values(|b: Bucket| b@)
                            =~= before.update(k as int, (name@, before[k as int].1.push(host@))));
                    }
                } else {
                    let mut members: Vec<String> = Vec::new();
                    members.push(host.clone());
                    proof {
                        assert(strings_view(members@) =~= seq![host@]);
                    }
                    buckets.push(Bucket { env: name, hosts: members });
                    proof {
                        assert(buckets@.map_values(|b: Bucket| b@) =~= before.push((env@, seq![host@])));
                    }
                }
            },
        }
        i += 1;
    }
    proof {
        assert(hv.subrange(0, i as int) =~= hv);
        lemma_aggregate_total(hv, cv);
    }
    EnvironmentReport { buckets }
}

/// Groups `hosts` by the fixed environment catalog.
pub fn environment_report(hosts: &Vec<String>) -> (r: EnvironmentReport)
    ensures
        r@ == aggregate_spec(strings_view(hosts@), environment_catalog()),
        total_spec(r@) <= hosts@.len(),
{
    let catalog = environments();
    aggregate(hosts, catalog.as_slice())
}

} // verus!
