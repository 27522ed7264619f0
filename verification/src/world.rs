use vstd::prelude::*;
use crate::error::ContractError;
use crate::msgs::{Request, Response};

verus! {

/// One account's balance at a fungible-token ledger.
pub struct Entry {
    pub addr: String,
    pub amount: u128,
}

impl Clone for Entry {
    fn clone(&self) -> (r: Self)
        ensures
            r == *self,
    {
        Entry { addr: self.addr.clone(), amount: self.amount }
    }
}

/// The balance the entry list gives to `a`: the amount of the first entry
/// whose address is `a`, and zero where no entry matches.
pub open spec fn bal_of(s: Seq<Entry>, a: Seq<char>) -> u128
    decreases s.len(),
{
    if s.len() == 0 {
        0u128
    } else if s[0].addr@ == a {
        s[0].amount
    } else {
        bal_of(s.skip(1), a)
    }
}

/// A fungible-token ledger, modelled as it looks from outside: a total map
/// from account address to balance, with every unlisted account at zero.
pub struct Ledger {
    pub entries: Vec<Entry>,
}

impl Ledger {
    /// The ledger as a total balance map.
    pub open spec fn balances(&self) -> Map<Seq<char>, u128> {
        Map::new(|a: Seq<char>| true, |a: Seq<char>| bal_of(self.entries@, a))
    }

    /// An empty ledger: every balance is zero.
    pub fn new() -> (r: Ledger)
        ensures
            forall|a: Seq<char>| r.balances()[a] == 0u128,
    {
        Ledger { entries: Vec::new() }
    }

    /// A copy with the same balances.
    pub fn duplicate(&self) -> (r: Ledger)
        ensures
            r.balances() == self.balances(),
    {
        let mut entries: Vec<Entry> = Vec::new();
        let n = self.entries.len();
        let mut i: usize = 0;
        while i < n
            invariant
                i <= n,
                n == self.entries@.len(),
                entries@ =~= self.entries@.take(i as int),
            decreases n - i,
        {
            entries.push(self.entries[i].clone());
            proof {
                assert(entries@ =~= self.entries@.take(i as int + 1));
            }
            i += 1;
        }
        proof {
            assert(entries@ =~= self.entries@);
        }
        let r = Ledger { entries };
        proof {
            assert(r.balances() =~= self.balances());
        }
        r
    }

    /// The balance of `addr`.
    pub fn balance(&self, addr: &String) -> (r: u128)
        ensures
            r == self.balances()[addr@],
    {
        let n = self.entries.len();
        let mut i: usize = 0;
        while i < n
            invariant
                i <= n,
                n == self.entries@.len(),
                forall|k: int| 0 <= k < i ==> self.entries@[k].addr@ != addr@,
            decreases n - i,
        {
            if self.entries[i].addr == *addr {
                proof {
                    lemma_bal_skip_misses(self.entries@, addr@, i as int);
                }
                return self.entries[i].amount;
            }
            i += 1;
        }
        proof {
            lemma_bal_skip_misses(self.entries@, addr@, n as int);
        }
        0
    }

    /// Adds `amount` to the balance of `addr`.  Fails — leaving every
    /// balance as it was — exactly where the new balance would not fit.
    pub fn credit(&mut self, addr: &String, amount: u128) -> (ok: bool)
        ensures
            ok <==> old(self).balances()[addr@] + amount <= u128::MAX,
            ok ==> final(self).balances() == old(self).balances().insert(
                addr@,
                (old(self).balances()[addr@] + amount) as u128,
            ),
            !ok ==> final(self).balances() == old(self).balances(),
    {
        let ghost s0 = self.entries@;
        let n = self.entries.len();
        let mut i: usize = 0;
        while i < n
            invariant
                i <= n,
                n == self.entries@.len(),
                self.entries@ == s0,
                s0 == old(self).entries@,
                forall|k: int| 0 <= k < i ==> self.entries@[k].addr@ != addr@,
            decreases n - i,
        {
            if self.entries[i].addr == *addr {
                proof {
                    lemma_bal_skip_misses(s0, addr@, i as int);
                    assert(old(self).balances()[addr@] == s0[i as int].amount);
                }
                let cur = self.entries[i].amount;
                if amount <= u128::MAX - cur {
                    let fresh_addr = self.entries[i].addr.clone();
                    self.entries[i] = Entry { addr: fresh_addr, amount: cur + amount };
                    proof {
                        lemma_bal_update(s0, i as int, self.entries@[i as int]);
                        assert(self.balances() =~= old(self).balances().insert(
                            addr@,
                            (old(self).balances()[addr@] + amount) as u128,
                        ));
                    }
                    return true;
                } else {
                    return false;
                }
            }
            i += 1;
        }
        proof {
            lemma_bal_skip_misses(s0, addr@, n as int);
            assert(old(self).balances()[addr@] == 0u128);
        }
        let entry = Entry { addr: addr.clone(), amount };
        self.entries.push(entry);
        proof {
            lemma_bal_push(s0, self.entries@[s0.len() as int]);
            assert(self.balances() =~= old(self).balances().insert(
                addr@,
                (old(self).balances()[addr@] + amount) as u128,
            ));
        }
        true
    }

    /// Removes `amount` from the balance of `addr`.  Fails — leaving every
    /// balance as it was — exactly where the balance is short.
    pub fn debit(&mut self, addr: &String, amount: u128) -> (ok: bool)
        ensures
            ok <==> amount <= old(self).balances()[addr@],
            ok ==> final(self).balances() == old(self).balances().insert(
                addr@,
                (old(self).balances()[addr@] - amount) as u128,
            ),
            !ok ==> final(self).balances() == old(self).balances(),
    {
        let ghost s0 = self.entries@;
        let n = self.entries.len();
        let mut i: usize = 0;
        while i < n
            invariant
                i <= n,
                n == self.entries@.len(),
                self.entries@ == s0,
                s0 == old(self).entries@,
                forall|k: int| 0 <= k < i ==> self.entries@[k].addr@ != addr@,
            decreases n - i,
        {
            if self.entries[i].addr == *addr {
                proof {
                    lemma_bal_skip_misses(s0, addr@, i as int);
                    assert(old(self).balances()[addr@] == s0[i as int].amount);
                }
                let cur = self.entries[i].amount;
                if amount <= cur {
                    let fresh_addr = self.entries[i].addr.clone();
                    self.entries[i] = Entry { addr: fresh_addr, amount: cur - amount };
                    proof {
                        lemma_bal_update(s0, i as int, self.entries@[i as int]);
                        assert(self.balances() =~= old(self).balances().insert(
                            addr@,
                            (old(self).balances()[addr@] - amount) as u128,
                        ));
                    }
                    return true;
                } else {
                    return false;
                }
            }
            i += 1;
        }
        proof {
            lemma_bal_skip_misses(s0, addr@, n as int);
            assert(old(self).balances()[addr@] == 0u128);
        }
        if amount == 0 {
            proof {
                assert(self.balances() =~= old(self).balances().insert(addr@, 0u128));
            }
            true
        } else {
            false
        }
    }
}

/// What a ledger transfer does to a balance map: `amount` moves from
/// `from` to `to`.  `None` where `from` is short, or where the credited
/// balance would not fit.
pub open spec fn transfer_map(
    m: Map<Seq<char>, u128>,
    from: Seq<char>,
    to: Seq<char>,
    amount: u128,
) -> Option<Map<Seq<char>, u128>> {
    if m[from] < amount {
        None
    } else {
        let m1 = m.insert(from, (m[from] - amount) as u128);
        if m1[to] + amount > u128::MAX {
            None
        } else {
            Some(m1.insert(to, (m1[to] + amount) as u128))
        }
    }
}

impl Ledger {
    /// Moves `amount` from `from` to `to`, atomically: on failure every
    /// balance reads as it did before.
    pub fn transfer(&mut self, from: &String, to: &String, amount: u128) -> (ok: bool)
        ensures
            ok <==> transfer_map(old(self).balances(), from@, to@, amount) is Some,
            ok ==> Some(final(self).balances()) == transfer_map(
                old(self).balances(),
                from@,
                to@,
                amount,
            ),
            !ok ==> final(self).balances() == old(self).balances(),
    {
        let ghost m0 = self.balances();
        if !self.debit(from, amount) {
            return false;
        }
        let ghost m1 = self.balances();
        if !self.credit(to, amount) {
            let restored = self.credit(from, amount);
            proof {
                assert(m1[from@] + amount == m0[from@]);
                assert(restored);
                assert(self.balances() =~= m0);
            }
            return false;
        }
        proof {
            assert(Some(self.balances()) == transfer_map(m0, from@, to@, amount));
        }
        true
    }
}

/// Where the first `i` entries miss `a`, the balance of `a` is decided by
/// the remaining entries alone.
proof fn lemma_bal_skip_misses(s: Seq<Entry>, a: Seq<char>, i: int)
    requires
        0 <= i <= s.len(),
        forall|k: int| 0 <= k < i ==> s[k].addr@ != a,
    ensures
        bal_of(s, a) == bal_of(s.skip(i), a),
    decreases i,
{
    if i > 0 {
        assert(s.skip(1).skip(i - 1) =~= s.skip(i));
        lemma_bal_skip_misses(s.skip(1), a, i - 1);
    } else {
        assert(s.skip(0) =~= s);
    }
}

/// Overwriting the first entry for an address changes that address's
/// balance to the new amount and no other balance at all.
proof fn lemma_bal_update(s: Seq<Entry>, i: int, e: Entry)
    requires
        0 <= i < s.len(),
        e.addr@ == s[i].addr@,
        forall|k: int| 0 <= k < i ==> s[k].addr@ != s[i].addr@,
    ensures
        bal_of(s.update(i, e), s[i].addr@) == e.amount,
        forall|x: Seq<char>| x != s[i].addr@ ==> bal_of(s.update(i, e), x) == bal_of(s, x),
    decreases i,
{
    let s2 = s.update(i, e);
    let a = s[i].addr@;
    if i == 0 {
        assert(s2[0] == e);
        assert(s2.skip(1) =~= s.skip(1));
        assert(bal_of(s2, a) == e.amount);
        assert forall|x: Seq<char>| x != a implies bal_of(s2, x) == bal_of(s, x) by {
            assert(bal_of(s2, x) == bal_of(s2.skip(1), x));
            assert(bal_of(s, x) == bal_of(s.skip(1), x));
        }
    } else {
        assert(s2[0] == s[0]);
        let t = s.skip(1);
        let t2 = t.update(i - 1, e);
        assert(s2.skip(1) =~= t2);
        assert(t[i - 1] == s[i]);
        assert forall|k: int| 0 <= k < i - 1 implies (#[trigger] t[k]).addr@ != t[i - 1].addr@ by {
            assert(t[k] == s[k + 1]);
        }
        lemma_bal_update(t, i - 1, e);
        assert(s[0].addr@ != a);
        assert(bal_of(s2, a) == bal_of(t2, a));
        assert(bal_of(t2, a) == e.amount);
        assert forall|x: Seq<char>| x != a implies bal_of(s2, x) == bal_of(s, x) by {
            if s[0].addr@ != x {
                assert(bal_of(s2, x) == bal_of(t2, x));
                assert(bal_of(s, x) == bal_of(t, x));
                assert(bal_of(t2, x) == bal_of(t, x));
            }
        }
    }
}

/// Appending an entry for an address no earlier entry carries sets that
/// address's balance to the appended amount and no other balance at all.
proof fn lemma_bal_push(s: Seq<Entry>, e: Entry)
    requires
        forall|k: int| 0 <= k < s.len() ==> s[k].addr@ != e.addr@,
    ensures
        bal_of(s.push(e), e.addr@) == e.amount,
        forall|x: Seq<char>| x != e.addr@ ==> bal_of(s.push(e), x) == bal_of(s, x),
    decreases s.len(),
{
    let s2 = s.push(e);
    if s.len() == 0 {
        assert(s2[0] == e);
        assert(s2.skip(1) =~= Seq::<Entry>::empty());
        assert(bal_of(s2, e.addr@) == e.amount);
        assert forall|x: Seq<char>| x != e.addr@ implies bal_of(s2, x) == bal_of(s, x) by {
            assert(bal_of(s2, x) == bal_of(s2.skip(1), x));
            assert(bal_of(s2.skip(1), x) == 0u128);
            assert(bal_of(s, x) == 0u128);
        }
    } else {
        assert(s2[0] == s[0]);
        let t = s.skip(1);
        let t2 = t.push(e);
        assert(s2.skip(1) =~= t2);
        lemma_bal_push(t, e);
        assert(s[0].addr@ != e.addr@);
        assert(bal_of(s2, e.addr@) == bal_of(t2, e.addr@));
        assert forall|x: Seq<char>| x != e.addr@ implies bal_of(s2, x) == bal_of(s, x) by {
            if s[0].addr@ != x {
                assert(bal_of(s2, x) == bal_of(t2, x));
                assert(bal_of(s, x) == bal_of(t, x));
                assert(bal_of(t2, x) == bal_of(t, x));
            }
        }
    }
}

/// The observable state of the proxy's collaborators: the end reward
/// protocol's books for the proxy, and the two token ledgers as balance
/// maps.  The address fields say how requests are routed.
#[verifier::ext_equal]
pub ghost struct WorldView {
    /// The proxy's own address, the holder of the balances it custodies.
    pub proxy: Seq<char>,
    /// The end reward protocol's address.
    pub reward_protocol: Seq<char>,
    /// The staking entry point within the end reward protocol.
    pub reward_protocol_entry: Seq<char>,
    /// The LP-share ledger's address.
    pub lp_token: Seq<char>,
    /// The reward-token ledger's address.
    pub reward_token: Seq<char>,
    /// LP shares the end protocol holds as staked by the proxy.
    pub staked: u128,
    /// Yield accrued at the end protocol, not yet realized.
    pub pending: u128,
    /// The LP-share ledger.
    pub lp: Map<Seq<char>, u128>,
    /// The reward-token ledger.
    pub reward: Map<Seq<char>, u128>,
}

/// What one outbound request does to the collaborators, or the error the
/// addressed collaborator rejects it with: `InsufficientBalance` where a
/// balance is short for a transfer, `CollaboratorFailure` for every other
/// rejection (a misrouted request, an unstake of more than is staked, a
/// balance that would no longer fit).  A rejected request leaves the world
/// as it was; the host then discards the rest of the operation's requests
/// and rolls the whole operation back.
pub open spec fn step(w: WorldView, req: Request) -> Result<
    WorldView,
    ContractError,
> {
    match req {
        Request::Stake { protocol, entry, amount } => {
            if protocol@ != w.reward_protocol || entry@ != w.reward_protocol_entry {
                Err(ContractError::CollaboratorFailure)
            } else if w.staked + amount > u128::MAX {
                Err(ContractError::CollaboratorFailure)
            } else if w.lp[w.proxy] < amount {
                Err(ContractError::InsufficientBalance)
            } else {
                Ok(
                    WorldView {
                        staked: (w.staked + amount) as u128,
                        lp: w.lp.insert(w.proxy, (w.lp[w.proxy] - amount) as u128),
                        ..w
                    },
                )
            }
        },
        Request::AccrueRewards { protocol } => {
            if protocol@ != w.reward_protocol || w.reward[w.proxy] + w.pending > u128::MAX {
                Err(ContractError::CollaboratorFailure)
            } else {
                Ok(
                    WorldView {
                        pending: 0,
                        reward: w.reward.insert(w.proxy, (w.reward[w.proxy] + w.pending) as u128),
                        ..w
                    },
                )
            }
        },
        Request::Unstake { protocol, amount } => {
            if protocol@ != w.reward_protocol || amount > w.staked || w.lp[w.proxy] + amount
                > u128::MAX {
                Err(ContractError::CollaboratorFailure)
            } else {
                Ok(
                    WorldView {
                        staked: (w.staked - amount) as u128,
                        lp: w.lp.insert(w.proxy, (w.lp[w.proxy] + amount) as u128),
                        ..w
                    },
                )
            }
        },
        Request::EmergencyUnstake { protocol, amount } => {
            if protocol@ != w.reward_protocol || amount > w.staked || w.lp[w.proxy] + amount
                > u128::MAX {
                Err(ContractError::CollaboratorFailure)
            } else {
                Ok(
                    WorldView {
                        staked: (w.staked - amount) as u128,
                        pending: 0,
                        lp: w.lp.insert(w.proxy, (w.lp[w.proxy] + amount) as u128),
                        ..w
                    },
                )
            }
        },
        Request::Cw20Transfer { token, recipient, amount } => {
            if token@ == w.lp_token {
                if w.lp[w.proxy] < amount {
                    Err(ContractError::InsufficientBalance)
                } else {
                    match transfer_map(w.lp, w.proxy, recipient@, amount) {
                        Some(m) => Ok(WorldView { lp: m, ..w }),
                        None => Err(ContractError::CollaboratorFailure),
                    }
                }
            } else if token@ == w.reward_token {
                if w.reward[w.proxy] < amount {
                    Err(ContractError::InsufficientBalance)
                } else {
                    match transfer_map(w.reward, w.proxy, recipient@, amount) {
                        Some(m) => Ok(WorldView { reward: m, ..w }),
                        None => Err(ContractError::CollaboratorFailure),
                    }
                }
            } else {
                Err(ContractError::CollaboratorFailure)
            }
        },
    }
}

/// Executes an ordered list of requests: each request steps the world,
/// and the first rejection fails the whole list with that rejection's
/// error.
pub open spec fn run(w: WorldView, reqs: Seq<Request>) -> Result<
    WorldView,
    ContractError,
>
    decreases reqs.len(),
{
    if reqs.len() == 0 {
        Ok(w)
    } else {
        match step(w, reqs[0]) {
            Ok(m) => run(m, reqs.skip(1)),
            Err(e) => Err(e),
        }
    }
}

/// Running a single request is stepping it.
pub proof fn lemma_run_one(w: WorldView, r: Request)
    ensures
        run(w, seq![r]) == step(w, r),
{
    let s = seq![r];
    assert(s[0] == r);
    assert(s.skip(1) =~= Seq::<Request>::empty());
    match step(w, r) {
        Ok(m) => {
            assert(run(m, s.skip(1)) == Ok::<WorldView, ContractError>(m));
        },
        Err(_) => {},
    }
}

/// Running a pair of requests is stepping the first, then the second from
/// where the first ended.
pub proof fn lemma_run_two(w: WorldView, r0: Request, r1: Request)
    ensures
        run(w, seq![r0, r1]) == (match step(w, r0) {
            Ok(m) => step(m, r1),
            Err(e) => Err::<WorldView, ContractError>(e),
        }),
{
    let s = seq![r0, r1];
    assert(s[0] == r0);
    assert(s.skip(1) =~= seq![r1]);
    match step(w, r0) {
        Ok(m) => {
            lemma_run_one(m, r1);
            assert(run(m, s.skip(1)) == run(m, seq![r1]));
        },
        Err(_) => {},
    }
}

/// Running a list is running a prefix, then the rest from where the
/// prefix ended.
pub proof fn lemma_run_split(w: WorldView, reqs: Seq<Request>, i: int)
    requires
        0 <= i <= reqs.len(),
    ensures
        run(w, reqs) == match run(w, reqs.take(i)) {
            Ok(m) => run(m, reqs.skip(i)),
            Err(e) => Err(e),
        },
    decreases i,
{
    if i == 0 {
        assert(reqs.take(0) =~= Seq::<Request>::empty());
        assert(reqs.skip(0) =~= reqs);
    } else {
        let p = reqs.take(i);
        assert(p[0] == reqs[0]);
        match step(w, reqs[0]) {
            Ok(m) => {
                lemma_run_split(m, reqs.skip(1), i - 1);
                assert(reqs.skip(1).take(i - 1) =~= reqs.take(i).skip(1));
                assert(reqs.skip(1).skip(i - 1) =~= reqs.skip(i));
                assert(run(w, reqs) == run(m, reqs.skip(1)));
                assert(run(w, reqs.take(i)) == run(m, reqs.take(i).skip(1)));
            },
            Err(e) => {
                assert(run(w, reqs) == Err::<WorldView, ContractError>(e));
                assert(run(w, reqs.take(i)) == Err::<WorldView, ContractError>(e));
            },
        }
    }
}

/// An executable model of the proxy's collaborators, for exercising
/// operations end to end: the end reward protocol's books for the proxy
/// and the two token ledgers, with the addresses requests are routed by.
pub struct World {
    pub proxy: String,
    pub reward_protocol: String,
    pub reward_protocol_entry: String,
    pub lp_token: String,
    pub reward_token: String,
    pub staked: u128,
    pub pending_yield: u128,
    pub lp: Ledger,
    pub reward: Ledger,
}

impl View for World {
    type V = WorldView;

    open spec fn view(&self) -> WorldView {
        WorldView {
            proxy: self.proxy@,
            reward_protocol: self.reward_protocol@,
            reward_protocol_entry: self.reward_protocol_entry@,
            lp_token: self.lp_token@,
            reward_token: self.reward_token@,
            staked: self.staked,
            pending: self.pending_yield,
            lp: self.lp.balances(),
            reward: self.reward.balances(),
        }
    }
}

impl World {
    /// A copy with the same observable state.
    pub fn duplicate(&self) -> (r: World)
        ensures
            r@ == self@,
    {
        let r = World {
            proxy: self.proxy.clone(),
            reward_protocol: self.reward_protocol.clone(),
            reward_protocol_entry: self.reward_protocol_entry.clone(),
            lp_token: self.lp_token.clone(),
            reward_token: self.reward_token.clone(),
            staked: self.staked,
            pending_yield: self.pending_yield,
            lp: self.lp.duplicate(),
            reward: self.reward.duplicate(),
        };
        proof {
            assert(r@ =~= self@);
        }
        r
    }

    /// Performs one request against the collaborators.  Fails — changing
    /// nothing, and with exactly the step's error — exactly where the
    /// request's step is rejected.
    pub fn apply_request(&mut self, req: &Request) -> (r: Result<
        (),
        ContractError,
    >)
        ensures
            r is Ok <==> step(old(self)@, *req) is Ok,
            r is Ok ==> Ok::<WorldView, ContractError>(final(self)@) == step(
                old(self)@,
                *req,
            ),
            r matches Err(e) ==> final(self)@ == old(self)@ && step(old(self)@, *req) == Err::<
                WorldView,
                ContractError,
            >(e),
    {
        match req {
            Request::Stake { protocol, entry, amount } => {
                if !(*protocol == self.reward_protocol) || !(*entry
                    == self.reward_protocol_entry) {
                    return Err(ContractError::CollaboratorFailure);
                }
                if *amount > u128::MAX - self.staked {
                    return Err(ContractError::CollaboratorFailure);
                }
                if !self.lp.debit(&self.proxy, *amount) {
                    return Err(ContractError::InsufficientBalance);
                }
                self.staked = self.staked + *amount;
                proof {
                    assert(Ok::<WorldView, ContractError>(self@) == step(
                        old(self)@,
                        *req,
                    )) by {
                        assert(self@ =~= step(old(self)@, *req).unwrap());
                    }
                }
                Ok(())
            },
            Request::AccrueRewards { protocol } => {
                if !(*protocol == self.reward_protocol) {
                    return Err(ContractError::CollaboratorFailure);
                }
                let pending = self.pending_yield;
                if !self.reward.credit(&self.proxy, pending) {
                    return Err(ContractError::CollaboratorFailure);
                }
                self.pending_yield = 0;
                proof {
                    assert(Ok::<WorldView, ContractError>(self@) == step(
                        old(self)@,
                        *req,
                    )) by {
                        assert(self@ =~= step(old(self)@, *req).unwrap());
                    }
                }
                Ok(())
            },
            Request::Unstake { protocol, amount } => {
                if !(*protocol == self.reward_protocol) {
                    return Err(ContractError::CollaboratorFailure);
                }
                if *amount > self.staked {
                    return Err(ContractError::CollaboratorFailure);
                }
                if !self.lp.credit(&self.proxy, *amount) {
                    return Err(ContractError::CollaboratorFailure);
                }
                self.staked = self.staked - *amount;
                proof {
                    assert(Ok::<WorldView, ContractError>(self@) == step(
                        old(self)@,
                        *req,
                    )) by {
                        assert(self@ =~= step(old(self)@, *req).unwrap());
                    }
                }
                Ok(())
            },
            Request::EmergencyUnstake { protocol, amount } => {
                if !(*protocol == self.reward_protocol) {
                    return Err(ContractError::CollaboratorFailure);
                }
                if *amount > self.staked {
                    return Err(ContractError::CollaboratorFailure);
                }
                if !self.lp.credit(&self.proxy, *amount) {
                    return Err(ContractError::CollaboratorFailure);
                }
                self.staked = self.staked - *amount;
                self.pending_yield = 0;
                proof {
                    assert(Ok::<WorldView, ContractError>(self@) == step(
                        old(self)@,
                        *req,
                    )) by {
                        assert(self@ =~= step(old(self)@, *req).unwrap());
                    }
                }
                Ok(())
            },
            Request::Cw20Transfer { token, recipient, amount } => {
                if *token == self.lp_token {
                    let short = self.lp.balance(&self.proxy) < *amount;
                    let ok = self.lp.transfer(&self.proxy, recipient, *amount);
                    proof {
                        if ok {
                            assert(Ok::<WorldView, ContractError>(self@) == step(
                                old(self)@,
                                *req,
                            )) by {
                                assert(self@ =~= step(old(self)@, *req).unwrap());
                            }
                        } else {
                            assert(self@ =~= old(self)@);
                        }
                    }
                    if ok {
                        Ok(())
                    } else if short {
                        Err(ContractError::InsufficientBalance)
                    } else {
                        Err(ContractError::CollaboratorFailure)
                    }
                } else if *token == self.reward_token {
                    let short = self.reward.balance(&self.proxy) < *amount;
                    let ok = self.reward.transfer(&self.proxy, recipient, *amount);
                    proof {
                        if ok {
                            assert(Ok::<WorldView, ContractError>(self@) == step(
                                old(self)@,
                                *req,
                            )) by {
                                assert(self@ =~= step(old(self)@, *req).unwrap());
                            }
                        } else {
                            assert(self@ =~= old(self)@);
                        }
                    }
                    if ok {
                        Ok(())
                    } else if short {
                        Err(ContractError::InsufficientBalance)
                    } else {
                        Err(ContractError::CollaboratorFailure)
                    }
                } else {
                    Err(ContractError::CollaboratorFailure)
                }
            },
        }
    }

    /// Executes an operation's requests in order, atomically: either every
    /// request succeeds and the world ends as the whole run says, or the
    /// world is rolled back to exactly where it started — nothing,
    /// including any request sequenced after the failing one, takes
    /// effect — and the failing request's error is returned.
    pub fn apply_response(&mut self, resp: &Response) -> (r: Result<
        (),
        ContractError,
    >)
        ensures
            r is Ok <==> run(old(self)@, resp.requests@) is Ok,
            r is Ok ==> Ok::<WorldView, ContractError>(final(self)@) == run(
                old(self)@,
                resp.requests@,
            ),
            r matches Err(e) ==> final(self)@ == old(self)@ && run(old(self)@, resp.requests@)
                == Err::<WorldView, ContractError>(e),
    {
        let ghost pre = self@;
        let snapshot = self.duplicate();
        let n = resp.requests.len();
        let mut i: usize = 0;
        while i < n
            invariant
                i <= n,
                n == resp.requests@.len(),
                snapshot@ == pre,
                pre == old(self)@,
                run(pre, resp.requests@.take(i as int)) == Ok::<
                    WorldView,
                    ContractError,
                >(self@),
            decreases n - i,
        {
            let ghost cur = self@;
            let outcome = self.apply_request(&resp.requests[i]);
            proof {
                lemma_run_split(pre, resp.requests@, i as int);
            }
            if let Err(e) = outcome {
                proof {
                    assert(resp.requests@.skip(i as int)[0] == resp.requests@[i as int]);
                    assert(run(cur, resp.requests@.skip(i as int)) == Err::<
                        WorldView,
                        ContractError,
                    >(e));
                }
                *self = snapshot;
                return Err(e);
            }
            proof {
                assert(resp.requests@.take(i as int + 1) =~= resp.requests@.take(i as int).push(
                    resp.requests@[i as int],
                ));
                lemma_run_split(pre, resp.requests@.take(i as int + 1), i as int);
                assert(resp.requests@.take(i as int + 1).take(i as int) =~= resp.requests@.take(
                    i as int,
                ));
                assert(resp.requests@.take(i as int + 1).skip(i as int) =~= seq![
                    resp.requests@[i as int],
                ]);
                assert(run(cur, seq![resp.requests@[i as int]]) == Ok::<
                    WorldView,
                    ContractError,
                >(self@)) by {
                    let s1 = seq![resp.requests@[i as int]];
                    assert(s1[0] == resp.requests@[i as int]);
                    assert(s1.skip(1) =~= Seq::<Request>::empty());
                    assert(step(cur, s1[0]) == Ok::<WorldView, ContractError>(
                        self@,
                    ));
                    assert(run(self@, s1.skip(1)) == Ok::<WorldView, ContractError>(
                        self@,
                    ));
                }
            }
            i += 1;
        }
        proof {
            assert(resp.requests@.take(n as int) =~= resp.requests@);
        }
        Ok(())
    }

    /// The LP-share balance of `addr`.
    pub fn lp_balance_of(&self, addr: &String) -> (r: u128)
        ensures
            r == self@.lp[addr@],
    {
        self.lp.balance(addr)
    }

    /// The reward-token balance of `addr`.
    pub fn reward_balance_of(&self, addr: &String) -> (r: u128)
        ensures
            r == self@.reward[addr@],
    {
        self.reward.balance(addr)
    }

    /// What the proxy observes of this world when answering a query: its
    /// staked amount and pending yield at the end protocol, and its own
    /// reward-token balance.  This world does expose the pending figure,
    /// so the observation always carries it.
    pub fn observe(&self) -> (obs: crate::proxy::Observation)
        ensures
            obs.staked == self@.staked,
            obs.reward_balance == self@.reward[self@.proxy],
            obs.pending == Some(self@.pending),
    {
        crate::proxy::Observation {
            staked: self.staked,
            reward_balance: self.reward.balance(&self.proxy),
            pending: Some(self.pending_yield),
        }
    }
}

} // verus!
