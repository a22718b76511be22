//! The budgets of hosts, and the table that they are kept in.

use crate::retry::bucket;
use crate::retry::bucket::{Asked, Counted};
use crate::retry::load::ExtraLoad;
use std::sync::Arc;
use tower::retry::budget::TpsBudget;
use vstd::hash_map::StringHashMap;
use vstd::prelude::*;

verus! {

/// Enough for any sane client, and a bound on how much a client crawling
/// arbitrary hosts can accumulate.
pub const MAX_HOSTS: usize = 512;

/// For how many seconds a budget counts a request.
pub const WINDOW_SECS: u64 = 10;

/// How many retries per second a budget allows a client that sends little.
pub const MIN_PER_SEC: u32 = 10;

/// A record of a request that a budget counted.
pub struct Deposit {
    budget: HostBudget,
    counted: Counted,
}

impl Deposit {
    /// The budget that counted the request.
    pub closed spec fn budget(self) -> HostBudget {
        self.budget
    }

    /// What its bucket said.
    pub closed spec fn counted(self) -> Counted {
        self.counted
    }

    /// Whether this comes from that budget: its bucket counted the request.
    pub open spec fn is_from(self, budget: HostBudget) -> bool {
        &&& self.budget() == budget
        &&& self.counted().bucket() == budget.bucket()
    }
}

/// A payment for one retry.
pub struct Payment {
    budget: HostBudget,
    answer: Asked,
}

impl Payment {
    /// The budget that paid.
    pub closed spec fn budget(self) -> HostBudget {
        self.budget
    }

    /// What its bucket answered.
    pub closed spec fn answer(self) -> Asked {
        self.answer
    }

    /// Whether this comes from that budget: its bucket was asked, and paid.
    pub open spec fn is_from(self, budget: HostBudget) -> bool {
        &&& self.budget() == budget
        &&& self.answer().bucket() == budget.bucket()
        &&& self.answer().paid()
    }
}

/// A record that a budget could not pay for a retry.
pub struct Refusal {
    budget: HostBudget,
    answer: Asked,
}

impl Refusal {
    /// The budget that could not pay.
    pub closed spec fn budget(self) -> HostBudget {
        self.budget
    }

    /// What its bucket answered.
    pub closed spec fn answer(self) -> Asked {
        self.answer
    }

    /// Whether this comes from that budget: its bucket was asked, and did not pay.
    pub open spec fn is_from(self, budget: HostBudget) -> bool {
        &&& self.budget() == budget
        &&& self.answer().bucket() == budget.bucket()
        &&& !self.answer().paid()
    }
}

/// The retry budget of one host.
pub struct HostBudget {
    bucket: Arc<TpsBudget>,
    home: Ghost<int>,
}

impl Clone for HostBudget {
    fn clone(&self) -> (r: HostBudget)
        ensures
            r == *self,
    {
        HostBudget { bucket: self.bucket.clone(), home: self.home }
    }
}

impl HostBudget {
    /// The bucket that holds what the budget has left.
    pub closed spec fn bucket(self) -> TpsBudget {
        *self.bucket
    }

    /// The host whose requests this budget was made for, by the authority that
    /// they are sent to.
    pub open spec fn host(self) -> Seq<char> {
        bucket::budget_host(self.bucket())
    }

    /// What the budget was made with: the window in seconds, the retries per
    /// second that are always allowed, and the extra load, by its digits and
    /// decimal places.
    pub open spec fn terms(self) -> (nat, nat, (nat, nat)) {
        bucket::budget_terms(self.bucket())
    }

    /// The mark of the table that the budget is kept in, as [`HostBudgets::home`]
    /// has it.
    pub closed spec fn home(self) -> int {
        self.home@
    }

    fn new(host: &str, extra_load: ExtraLoad, home: Ghost<int>) -> (r: HostBudget)
        ensures
            r.host() == host@,
            r.home() == home@,
            r.terms() == (WINDOW_SECS as nat, MIN_PER_SEC as nat, extra_load@),
    {
        let digits: u32 = extra_load.digits();
        let places: u32 = extra_load.places();
        HostBudget {
            bucket: Arc::new(
                bucket::new_budget(host, WINDOW_SECS, MIN_PER_SEC, digits, places),
            ),
            home,
        }
    }

    /// Count a request that is not retried.
    pub fn deposit(&self) -> (r: Deposit)
        ensures
            r.is_from(*self),
    {
        Deposit { budget: self.clone(), counted: bucket::deposit(&self.bucket) }
    }

    /// What comes of asking the bucket to pay for a retry, by its answer.
    fn payment(&self, answer: Asked) -> (r: Result<Payment, Refusal>)
        requires
            answer.bucket() == self.bucket(),
        ensures
            r is Ok <==> answer.paid(),
            r is Ok ==> r->Ok_0.is_from(*self) && r->Ok_0.answer() == answer,
            r is Err ==> r->Err_0.is_from(*self) && r->Err_0.answer() == answer,
    {
        if answer.has_paid() {
            Ok(Payment { budget: self.clone(), answer })
        } else {
            Err(Refusal { budget: self.clone(), answer })
        }
    }

    /// Ask the bucket to pay for a retry: a payment if it does, and a refusal if it
    /// does not.
    ///
    /// When it does depends on the time and on every earlier call.
    pub fn withdraw(&self) -> (r: Result<Payment, Refusal>)
        ensures
            r is Ok ==> r->Ok_0.is_from(*self),
            r is Err ==> r->Err_0.is_from(*self),
    {
        self.payment(bucket::withdraw(&self.bucket))
    }
}

/// The budgets of the hosts that requests were sent to.
pub struct HostBudgets {
    hosts: StringHashMap<HostBudget>,
    home: Ghost<int>,
}

impl View for HostBudgets {
    type V = Map<Seq<char>, HostBudget>;

    closed spec fn view(&self) -> Map<Seq<char>, HostBudget> {
        self.hosts@
    }
}

/// Whether asking the table `before` for the budget of `host` may give `r` and
/// leave the table as `after`: the budget is the one that the host has, or else a
/// new one. Once there are too many, a new one takes the place of all others.
pub open spec fn is_get(
    before: Map<Seq<char>, HostBudget>,
    host: Seq<char>,
    r: HostBudget,
    after: Map<Seq<char>, HostBudget>,
) -> bool {
    &&& after == if before.contains_key(host) {
        before
    } else if before.len() < MAX_HOSTS {
        before.insert(host, r)
    } else {
        Map::<Seq<char>, HostBudget>::empty().insert(host, r)
    }
    &&& after.contains_key(host)
    &&& after[host] == r
}

impl HostBudgets {
    /// The mark that the budgets in this table bear. It stays the same for as long
    /// as there is the table. Outside of this module nothing else is known of it,
    /// not even of two tables whether they have the same one.
    pub closed spec fn home(self) -> int {
        self.home@
    }

    /// Whether there are not too many budgets, each is kept under the host that
    /// it was made for, and all were made for this table, with that extra load.
    pub open spec fn wf(self, extra_load: ExtraLoad) -> bool {
        &&& self@.dom().finite()
        &&& self@.len() <= MAX_HOSTS
        &&& forall|host: Seq<char>| #[trigger]
            self@.contains_key(host) ==> {
                &&& self@[host].host() == host
                &&& self@[host].home() == self.home()
                &&& self@[host].terms() == (
                    WINDOW_SECS as nat,
                    MIN_PER_SEC as nat,
                    extra_load@,
                )
            }
    }

    /// No budgets yet.
    pub fn new() -> (r: HostBudgets)
        ensures
            r@ == Map::<Seq<char>, HostBudget>::empty(),
            forall|extra_load: ExtraLoad| #[trigger] r.wf(extra_load),
    {
        HostBudgets { hosts: StringHashMap::new(), home: Ghost(arbitrary()) }
    }

    /// The budget of `host`: the one that it has, or else a new one. Once there
    /// are too many, a new one takes the place of all others.
    pub fn get(&mut self, host: &str, extra_load: ExtraLoad) -> (r: HostBudget)
        requires
            old(self).wf(extra_load),
        ensures
            final(self).wf(extra_load),
            final(self).home() == old(self).home(),
            is_get(old(self)@, host@, r, final(self)@),
    {
        match self.hosts.get(host) {
            Some(budget) => return budget.clone(),
            None => {},
        }
        // Budgets are a rolling window anyway, so forgetting the history of a
        // client that talks to this many hosts is no great loss.
        if self.hosts.len() >= MAX_HOSTS {
            self.hosts.clear();
        }
        let budget: HostBudget = HostBudget::new(host, extra_load, self.home);
        self.hosts.insert(host.to_string(), budget.clone());
        budget
    }
}

/// Until there are too many hosts, asking for the budget of one leaves every
/// other host the budget that it has, and asking again gives the same one.
pub proof fn other_hosts_keep_their_budgets(
    before: Map<Seq<char>, HostBudget>,
    after: Map<Seq<char>, HostBudget>,
    host: Seq<char>,
    other: Seq<char>,
    budget: HostBudget,
)
    requires
        before.len() < MAX_HOSTS,
        other != host,
        is_get(before, host, budget, after),
    ensures
        before.contains_key(host) ==> budget == before[host],
        after.contains_key(other) == before.contains_key(other),
        before.contains_key(other) ==> after[other] == before[other],
{
}

/// Whether `tables` is a table, empty at first, after it was asked for the budgets
/// of `hosts`, one after the other, and gave `budgets`.
pub open spec fn is_run(
    tables: Seq<Map<Seq<char>, HostBudget>>,
    hosts: Seq<Seq<char>>,
    budgets: Seq<HostBudget>,
) -> bool {
    &&& tables.len() == hosts.len() + 1
    &&& budgets.len() == hosts.len()
    &&& tables[0] == Map::<Seq<char>, HostBudget>::empty()
    &&& forall|i: int|
        0 <= i < hosts.len() ==> #[trigger] is_get(tables[i], hosts[i], budgets[i], tables[i + 1])
}

/// The table holds the budgets of the hosts that were asked for, and no others.
proof fn lemma_table_holds_hosts(
    tables: Seq<Map<Seq<char>, HostBudget>>,
    hosts: Seq<Seq<char>>,
    budgets: Seq<HostBudget>,
    n: int,
)
    requires
        is_run(tables, hosts, budgets),
        hosts.to_set().len() <= MAX_HOSTS,
        0 <= n <= hosts.len(),
    ensures
        tables[n].dom() == hosts.take(n).to_set(),
        forall|i: int|
            0 <= i < n ==> tables[n].contains_key(#[trigger] hosts[i]) && tables[n][hosts[i]]
                == budgets[i],
    decreases n,
{
    if n == 0 {
        assert(hosts.take(0).to_set() =~= Set::empty());
    } else {
        lemma_table_holds_hosts(tables, hosts, budgets, n - 1);
        let before = tables[n - 1];
        let host = hosts[n - 1];
        assert(is_get(before, host, budgets[n - 1], tables[(n - 1) + 1]));
        assert(hosts.take(n) =~= hosts.take(n - 1).push(host));
        assert(hosts.take(n).to_set() =~= hosts.take(n - 1).to_set().insert(host)) by {
            assert forall|other: Seq<char>| #[trigger]
                hosts.take(n).to_set().contains(other) == hosts.take(n - 1).to_set().insert(
                    host,
                ).contains(other) by {
                let earlier = hosts.take(n - 1);
                if earlier.contains(other) {
                    let i = choose|i: int| 0 <= i < earlier.len() && earlier[i] == other;
                    assert(hosts.take(n)[i] == other);
                }
                assert(hosts.take(n)[n - 1] == host);
            }
        }
        assert(hosts.take(n).to_set().subset_of(hosts.to_set())) by {
            assert forall|other: Seq<char>| hosts.take(n).to_set().contains(
                other,
            ) implies #[trigger] hosts.to_set().contains(other) by {
                let asked = hosts.take(n);
                let i = choose|i: int| 0 <= i < asked.len() && asked[i] == other;
                assert(hosts[i] == other);
            }
        }
        vstd::seq_lib::seq_to_set_is_finite(hosts);
        vstd::seq_lib::seq_to_set_is_finite(hosts.take(n - 1));
        vstd::set_lib::lemma_len_subset(hosts.take(n).to_set(), hosts.to_set());
    }
}

/// As long as no more hosts were asked for than the table has room for, a host
/// keeps its budget from call to call, and the buckets of two hosts are never the
/// same.
pub proof fn hosts_keep_their_budgets(
    tables: Seq<Map<Seq<char>, HostBudget>>,
    hosts: Seq<Seq<char>>,
    budgets: Seq<HostBudget>,
    i: int,
    j: int,
)
    requires
        is_run(tables, hosts, budgets),
        forall|k: int|
            0 <= k < budgets.len() ==> (#[trigger] budgets[k]).host() == hosts[k],
        hosts.to_set().len() <= MAX_HOSTS,
        0 <= i < hosts.len(),
        0 <= j < hosts.len(),
    ensures
        hosts[i] == hosts[j] ==> budgets[i] == budgets[j],
        budgets[i].bucket() == budgets[j].bucket() <==> hosts[i] == hosts[j],
{
    lemma_table_holds_hosts(tables, hosts, budgets, hosts.len() as int);
    assert(tables[hosts.len() as int][hosts[i]] == budgets[i]);
    assert(tables[hosts.len() as int][hosts[j]] == budgets[j]);
}

/// A host that the table has no room for any more is given a budget in an empty table.
/// Others are given the one they have, or one more is added.
pub proof fn full_tables_start_afresh(
    before: Map<Seq<char>, HostBudget>,
    host: Seq<char>,
    budget: HostBudget,
    after: Map<Seq<char>, HostBudget>,
)
    requires
        is_get(before, host, budget, after),
    ensures
        before.contains_key(host) ==> after == before && budget == before[host],
        !before.contains_key(host) && before.len() < 512 ==> after == before.insert(host, budget),
        !before.contains_key(host) && before.len() >= 512 ==> after == Map::<
            Seq<char>,
            HostBudget,
        >::empty().insert(host, budget),
{
}

} // verus!
