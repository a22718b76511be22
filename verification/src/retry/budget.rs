//! How many retries a host may be sent.

use crate::message::Request;
use crate::retry::bucket;
use std::sync::Arc;
use vstd::prelude::*;
use vstd::rwlock::{RwLock, RwLockPredicate};

pub use crate::retry::hosts::{
    Deposit, HostBudget, HostBudgets, Payment, Refusal, MAX_HOSTS, MIN_PER_SEC, WINDOW_SECS,
};
pub use crate::retry::load::{ExtraLoad, MAX_LOAD};

verus! {

/// The table behind a lock is always the same, and its budgets are all made with
/// this extra load.
pub struct SameTable {
    /// The extra load.
    pub extra_load: ExtraLoad,
    /// The table.
    pub home: Ghost<int>,
}

impl RwLockPredicate<HostBudgets> for SameTable {
    open spec fn inv(self, budgets: HostBudgets) -> bool {
        &&& budgets.wf(self.extra_load)
        &&& budgets.home() == self.home@
    }
}

/// A retry budget per host.
///
/// Budgets are deliberately not shared between hosts, so that one failing host
/// can't spend the retry allowance of the others. Clones share their budgets.
pub struct Budgets {
    extra_load: ExtraLoad,
    hosts: Arc<RwLock<HostBudgets, SameTable>>,
    home: Ghost<int>,
}

impl Clone for Budgets {
    fn clone(&self) -> (r: Budgets)
        ensures
            r == *self,
    {
        proof {
            use_type_invariant(self);
        }
        Budgets { extra_load: self.extra_load, hosts: self.hosts.clone(), home: self.home }
    }
}

impl Budgets {
    #[verifier::type_invariant]
    spec fn same_table(self) -> bool {
        &&& self.hosts.pred().extra_load == self.extra_load
        &&& self.hosts.pred().home == self.home
    }

    /// The mark of the one table that all budgets are kept in, as
    /// [`HostBudgets::home`] has it.
    pub closed spec fn home(self) -> int {
        self.home@
    }

    /// The extra load that is allowed.
    pub closed spec fn extra_load(self) -> ExtraLoad {
        self.extra_load
    }

    /// Budgets that allow that extra load.
    pub fn new(extra_load: ExtraLoad) -> (r: Budgets)
        ensures
            r.extra_load() == extra_load,
    {
        let table: HostBudgets = HostBudgets::new();
        let home: Ghost<int> = Ghost(table.home());
        let hosts: RwLock<HostBudgets, SameTable> = RwLock::new(
            table,
            Ghost(SameTable { extra_load, home }),
        );
        Budgets { extra_load, hosts: Arc::new(hosts), home }
    }

    /// Whether `budget` is one for the host that `req` is sent to, from the one
    /// table of budgets, with the extra load that is allowed.
    pub open spec fn is_for(self, req: Request, budget: HostBudget) -> bool {
        &&& budget.host() == req.uri.authority_or_empty()
        &&& budget.home() == self.home()
        &&& budget.terms() == (WINDOW_SECS as nat, MIN_PER_SEC as nat, self.extra_load()@)
    }

    /// The budget of the host that `req` is sent to.
    pub fn get(&self, req: &Request) -> (r: HostBudget)
        ensures
            self.is_for(*req, r),
    {
        proof {
            use_type_invariant(self);
            reveal_strlit("");
            assert(""@ =~= Seq::empty());
        }
        let host: &str = match req.uri.authority() {
            Some(authority) => authority,
            None => "",
        };
        let (mut budgets, lock) = self.hosts.acquire_write();
        let budget: HostBudget = budgets.get(host, self.extra_load);
        lock.release_write(budgets);
        budget
    }
}

/// No host spends the allowance of another: the buckets that requests to two hosts
/// draw on are not the same.
pub proof fn hosts_share_no_budget(
    budgets: Budgets,
    a: Request,
    b: Request,
    of_a: HostBudget,
    of_b: HostBudget,
)
    requires
        budgets.is_for(a, of_a),
        budgets.is_for(b, of_b),
        a.uri.is_valid(),
        b.uri.is_valid(),
        a.uri.host_or_empty() != b.uri.host_or_empty(),
    ensures
        of_a.bucket() != of_b.bucket(),
{
}

/// A budget for a request is that of the authority that the request is sent to. It
/// counts for ten seconds, and allows for ten retries in each of them, and for the
/// extra load.
pub proof fn budgets_have_their_terms(budgets: Budgets, req: Request, budget: HostBudget)
    requires
        budgets.is_for(req, budget),
    ensures
        bucket::budget_host(budget.bucket()) == req.uri.authority_or_empty(),
        bucket::budget_terms(budget.bucket()) == (10nat, 10nat, budgets.extra_load()@),
{
}

} // verus!
