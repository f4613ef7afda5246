//! The multi-asset ledger: native and tokenized amounts keyed by identity,
//! with additive and subtractive bookkeeping.
//!
//! The ledger is modeled as two sequences of (key, amount) entries, at most
//! one entry per key.  Addition merges into an existing entry or appends a
//! new one; removal is all-or-nothing and never underflows.

use vstd::prelude::*;

verus! {

/// A quantity of the host chain's native currency, keyed by a denomination
/// string.
#[derive(Debug, PartialEq, Eq)]
pub struct Coin {
    pub denom: String,
    pub amount: u128,
}

/// A quantity of a tokenized asset, keyed by the asset contract's identity.
#[derive(Debug, PartialEq, Eq)]
pub struct Cw20Coin {
    pub address: String,
    pub amount: u128,
}

/// Spec-level model of one ledger entry: an identity key and a quantity.
#[verifier::ext_equal]
pub ghost struct EntryModel {
    pub key: Seq<char>,
    pub amount: int,
}

impl View for Coin {
    type V = EntryModel;

    open spec fn view(&self) -> EntryModel {
        EntryModel { key: self.denom@, amount: self.amount as int }
    }
}

impl View for Cw20Coin {
    type V = EntryModel;

    open spec fn view(&self) -> EntryModel {
        EntryModel { key: self.address@, amount: self.amount as int }
    }
}

/// The entry models of a sequence of native coins.
pub open spec fn coin_entries(s: Seq<Coin>) -> Seq<EntryModel> {
    s.map_values(|c: Coin| c@)
}

/// The entry models of a sequence of tokenized coins.
pub open spec fn cw20_entries(s: Seq<Cw20Coin>) -> Seq<EntryModel> {
    s.map_values(|c: Cw20Coin| c@)
}

/// Whether some entry of `s` carries the key `k`.
pub open spec fn has_key(s: Seq<EntryModel>, k: Seq<char>) -> bool {
    exists|i: int| 0 <= i < s.len() && s[i].key == k
}

/// The index of the entry of `s` carrying key `k` (meaningful when the keys
/// of `s` are distinct and `has_key(s, k)` holds).
pub open spec fn key_index(s: Seq<EntryModel>, k: Seq<char>) -> int {
    choose|i: int| 0 <= i < s.len() && s[i].key == k
}

/// No two entries of `s` share a key.
pub open spec fn distinct_keys(s: Seq<EntryModel>) -> bool {
    forall|i: int, j: int| 0 <= i < j < s.len() ==> s[i].key != s[j].key
}

/// The quantity stored under key `k`, taking absence as zero.
pub open spec fn amount_of(s: Seq<EntryModel>, k: Seq<char>) -> int {
    if has_key(s, k) {
        s[key_index(s, k)].amount
    } else {
        0
    }
}

/// The ledger after merging one entry: an existing entry with the same key
/// is incremented, otherwise the entry is appended.
pub open spec fn add_entry(s: Seq<EntryModel>, e: EntryModel) -> Seq<EntryModel> {
    if has_key(s, e.key) {
        let i = key_index(s, e.key);
        s.update(i, EntryModel { key: s[i].key, amount: s[i].amount + e.amount })
    } else {
        s.push(e)
    }
}

/// The ledger after merging a list of entries, first to last.
pub open spec fn add_entries(s: Seq<EntryModel>, l: Seq<EntryModel>) -> Seq<EntryModel>
    decreases l.len(),
{
    if l.len() == 0 {
        s
    } else {
        add_entries(add_entry(s, l[0]), l.skip(1))
    }
}

/// The ledger after removing one entry, or `None` if the key is absent or
/// holds less than the requested quantity.
pub open spec fn sub_entry(s: Seq<EntryModel>, e: EntryModel) -> Option<Seq<EntryModel>> {
    if has_key(s, e.key) && s[key_index(s, e.key)].amount >= e.amount {
        let i = key_index(s, e.key);
        Some(s.update(i, EntryModel { key: s[i].key, amount: s[i].amount - e.amount }))
    } else {
        None
    }
}

/// The ledger after removing a list of entries, first to last, or `None`
/// as soon as one removal fails.
pub open spec fn sub_entries(s: Seq<EntryModel>, l: Seq<EntryModel>) -> Option<Seq<EntryModel>>
    decreases l.len(),
{
    if l.len() == 0 {
        Some(s)
    } else {
        match sub_entry(s, l[0]) {
            Some(s2) => sub_entries(s2, l.skip(1)),
            None => None,
        }
    }
}

/// Merging `e` into `s` stays within the machine bound of a quantity.
pub open spec fn fits_add_entry(s: Seq<EntryModel>, e: EntryModel) -> bool {
    amount_of(s, e.key) + e.amount <= u128::MAX
}

/// Merging the whole list `l` into `s`, first to last, stays within bounds
/// at every step.
pub open spec fn fits_add_entries(s: Seq<EntryModel>, l: Seq<EntryModel>) -> bool
    decreases l.len(),
{
    if l.len() == 0 {
        true
    } else {
        fits_add_entry(s, l[0]) && fits_add_entries(add_entry(s, l[0]), l.skip(1))
    }
}

/// Every quantity in the entry list is non-negative.
pub open spec fn entries_nonneg(s: Seq<EntryModel>) -> bool {
    forall|i: int| 0 <= i < s.len() ==> (#[trigger] s[i]).amount >= 0
}

/// With distinct keys, the witness of `has_key` is unique, so `key_index`
/// names exactly the index where the key was found.
pub proof fn lemma_key_index_agrees(s: Seq<EntryModel>, k: Seq<char>, i: int)
    requires
        distinct_keys(s),
        0 <= i < s.len(),
        s[i].key == k,
    ensures
        has_key(s, k),
        key_index(s, k) == i,
{
    assert(has_key(s, k));
    let j = key_index(s, k);
    assert(0 <= j < s.len() && s[j].key == k);
    if i < j {
        assert(s[i].key != s[j].key);
    } else if j < i {
        assert(s[j].key != s[i].key);
    }
}

/// Merging an entry keeps the keys distinct.
pub proof fn lemma_add_entry_distinct(s: Seq<EntryModel>, e: EntryModel)
    requires
        distinct_keys(s),
    ensures
        distinct_keys(add_entry(s, e)),
{
    if has_key(s, e.key) {
        let i = key_index(s, e.key);
        let t = add_entry(s, e);
        assert forall|p: int, q: int| 0 <= p < q < t.len() implies t[p].key != t[q].key by {
            assert(t[p].key == s[p].key);
            assert(t[q].key == s[q].key);
        }
    } else {
        let t = s.push(e);
        assert forall|p: int, q: int| 0 <= p < q < t.len() implies t[p].key != t[q].key by {
            if q < s.len() {
                assert(t[p].key == s[p].key && t[q].key == s[q].key);
            } else {
                assert(t[q] == e);
                assert(t[p] == s[p]);
                assert(!(exists|m: int| 0 <= m < s.len() && s[m].key == e.key));
            }
        }
    }
}

/// Removing an entry right after merging it restores the list exactly,
/// provided its key was already present.
pub proof fn lemma_add_sub_entry(s: Seq<EntryModel>, e: EntryModel)
    requires
        distinct_keys(s),
        entries_nonneg(s),
        has_key(s, e.key),
    ensures
        sub_entry(add_entry(s, e), e) == Some(s),
{
    let i = key_index(s, e.key);
    assert(0 <= i < s.len() && s[i].key == e.key);
    let s1 = add_entry(s, e);
    lemma_add_entry_distinct(s, e);
    lemma_key_index_agrees(s1, e.key, i);
    assert(s1[i].amount == s[i].amount + e.amount);
    assert(s1[i].amount >= e.amount);
    let s2 = sub_entry(s1, e)->Some_0;
    assert(s2 =~= s) by {
        assert forall|j: int| 0 <= j < s.len() implies s2[j] == s[j] by {
            if j == i {
                assert(s2[i] == EntryModel { key: s1[i].key, amount: s1[i].amount - e.amount });
            }
        }
    }
}

/// Removing an entry commutes with merging another entry on top.
pub proof fn lemma_sub_add_entry_commute(s: Seq<EntryModel>, a: EntryModel, e: EntryModel)
    requires
        distinct_keys(s),
        sub_entry(s, e) is Some,
        a.amount >= 0,
    ensures
        sub_entry(add_entry(s, a), e) == Some(add_entry(sub_entry(s, e)->Some_0, a)),
{
    let i = key_index(s, e.key);
    assert(0 <= i < s.len() && s[i].key == e.key && s[i].amount >= e.amount);
    let s0 = sub_entry(s, e)->Some_0;
    lemma_sub_entry_distinct(s, e);
    let s1 = add_entry(s, a);
    lemma_add_entry_distinct(s, a);
    if a.key == e.key {
        lemma_key_index_agrees(s, a.key, i);
        assert(s1 == s.update(i, EntryModel { key: e.key, amount: s[i].amount + a.amount }));
        lemma_key_index_agrees(s1, e.key, i);
        assert(sub_entry(s1, e) is Some);
        lemma_key_index_agrees(s0, a.key, i);
        assert(sub_entry(s1, e)->Some_0 =~= add_entry(s0, a));
    } else if has_key(s, a.key) {
        let j = key_index(s, a.key);
        assert(0 <= j < s.len() && s[j].key == a.key);
        lemma_key_index_agrees(s, a.key, j);
        assert(j != i);
        lemma_key_index_agrees(s1, e.key, i);
        assert(s1[i].amount >= e.amount);
        lemma_key_index_agrees(s0, a.key, j);
        assert(sub_entry(s1, e)->Some_0 =~= add_entry(s0, a));
    } else {
        assert(!has_key(s0, a.key)) by {
            if has_key(s0, a.key) {
                let j = choose|j: int| 0 <= j < s0.len() && (#[trigger] s0[j]).key == a.key;
                assert(s[j].key == a.key);
            }
        }
        assert(s1 == s.push(a));
        lemma_key_index_agrees(s1, e.key, i);
        assert(s1[i].amount >= e.amount);
        assert(sub_entry(s1, e)->Some_0 =~= add_entry(s0, a));
    }
}

/// Removing an entry commutes with merging a whole list on top.
pub proof fn lemma_sub_add_entries_commute(s: Seq<EntryModel>, l: Seq<EntryModel>, e: EntryModel)
    requires
        distinct_keys(s),
        sub_entry(s, e) is Some,
        entries_nonneg(l),
    ensures
        sub_entry(add_entries(s, l), e) == Some(add_entries(sub_entry(s, e)->Some_0, l)),
    decreases l.len(),
{
    if l.len() > 0 {
        let s1 = add_entry(s, l[0]);
        lemma_sub_add_entry_commute(s, l[0], e);
        lemma_add_entry_distinct(s, l[0]);
        assert(entries_nonneg(l.skip(1))) by {
            assert forall|j: int| 0 <= j < l.skip(1).len() implies (#[trigger] l.skip(1)[j]).amount
                >= 0 by {
                assert(l.skip(1)[j] == l[j + 1]);
            }
        }
        lemma_sub_add_entries_commute(s1, l.skip(1), e);
        assert(sub_entry(s1, e)->Some_0 == add_entry(sub_entry(s, e)->Some_0, l[0]));
    }
}

/// Merging a list of entries whose keys are all present, then removing
/// the same list, restores the entry list exactly.
pub proof fn lemma_add_sub_entries(s: Seq<EntryModel>, l: Seq<EntryModel>)
    requires
        distinct_keys(s),
        entries_nonneg(s),
        entries_nonneg(l),
        forall|j: int| 0 <= j < l.len() ==> has_key(s, (#[trigger] l[j]).key),
    ensures
        sub_entries(add_entries(s, l), l) == Some(s),
    decreases l.len(),
{
    if l.len() > 0 {
        let e = l[0];
        let s1 = add_entry(s, e);
        lemma_add_entry_distinct(s, e);
        let i = key_index(s, e.key);
        assert(0 <= i < s.len() && s[i].key == e.key);
        lemma_key_index_agrees(s1, e.key, i);
        assert(s1[i].amount == s[i].amount + e.amount);
        assert(sub_entry(s1, e) is Some);
        lemma_sub_add_entries_commute(s1, l.skip(1), e);
        lemma_add_sub_entry(s, e);
        assert(sub_entry(s1, e) == Some(s));
        assert(sub_entry(add_entries(s1, l.skip(1)), e) == Some(add_entries(s, l.skip(1))));
        assert(entries_nonneg(l.skip(1))) by {
            assert forall|j: int| 0 <= j < l.skip(1).len() implies (#[trigger] l.skip(1)[j]).amount
                >= 0 by {
                assert(l.skip(1)[j] == l[j + 1]);
            }
        }
        assert(forall|j: int| 0 <= j < l.skip(1).len() ==> has_key(
            s,
            (#[trigger] l.skip(1)[j]).key,
        )) by {
            assert forall|j: int| 0 <= j < l.skip(1).len() implies has_key(
                s,
                (#[trigger] l.skip(1)[j]).key,
            ) by {
                assert(l.skip(1)[j] == l[j + 1]);
            }
        }
        lemma_add_sub_entries(s, l.skip(1));
        assert(add_entries(s, l) == add_entries(s1, l.skip(1)));
        assert(sub_entries(add_entries(s, l), l) == sub_entries(
            add_entries(s, l.skip(1)),
            l.skip(1),
        ));
    }
}

/// Whether every key of the amount is already present in the ledger.
pub open spec fn balance_keys_present(m: BalanceModel, b: &Balance) -> bool {
    match b {
        Balance::Native(v) => forall|j: int|
            0 <= j < v@.len() ==> has_key(m.native, (#[trigger] v@[j]).denom@),
        Balance::Cw20(c) => has_key(m.cw20, c.address@),
    }
}

/// Law: merging an amount into a ledger and then removing the same
/// amount restores the ledger exactly, provided every key of the amount
/// is already present in the ledger.  (Merging a fresh key and removing
/// it again would instead leave a zero-quantity entry behind.)
pub proof fn law_add_remove_round_trip(m: BalanceModel, b: &Balance)
    requires
        m.wf(),
        m.nonneg(),
        balance_keys_present(m, b),
    ensures
        m.add_balance(*b).remove_balance(b) == Some(m),
{
    match b {
        Balance::Native(v) => {
            let l = coin_entries(v@);
            assert(entries_nonneg(l)) by {
                assert forall|j: int| 0 <= j < l.len() implies (#[trigger] l[j]).amount >= 0 by {
                    assert(l[j] == v@[j]@);
                }
            }
            assert(forall|j: int| 0 <= j < l.len() ==> has_key(m.native, (#[trigger] l[j]).key))
                by {
                assert forall|j: int| 0 <= j < l.len() implies has_key(
                    m.native,
                    (#[trigger] l[j]).key,
                ) by {
                    assert(l[j] == v@[j]@);
                    assert(has_key(m.native, v@[j].denom@));
                }
            }
            lemma_add_sub_entries(m.native, l);
        },
        Balance::Cw20(c) => {
            lemma_add_sub_entry(m.cw20, c@);
        },
    }
}

/// Removing an entry keeps every key in place, so distinctness survives.
pub proof fn lemma_sub_entry_distinct(s: Seq<EntryModel>, e: EntryModel)
    requires
        distinct_keys(s),
    ensures
        sub_entry(s, e) is Some ==> distinct_keys(sub_entry(s, e)->Some_0),
        sub_entry(s, e) is Some ==> sub_entry(s, e)->Some_0.len() == s.len(),
        sub_entry(s, e) is Some ==> forall|i: int|
            0 <= i < s.len() ==> (#[trigger] sub_entry(s, e)->Some_0[i]).key == s[i].key,
{
}

impl Clone for Coin {
    /// Duplicates the coin exactly.
    fn clone(&self) -> (res: Self)
        ensures
            res == *self,
    {
        Coin { denom: self.denom.clone(), amount: self.amount }
    }
}

impl Clone for Cw20Coin {
    /// Duplicates the coin exactly.
    fn clone(&self) -> (res: Self)
        ensures
            res == *self,
    {
        Cw20Coin { address: self.address.clone(), amount: self.amount }
    }
}

/// Duplicates a list of native coins exactly.
pub fn clone_coins(v: &Vec<Coin>) -> (r: Vec<Coin>)
    ensures
        r@ == v@,
{
    let mut r: Vec<Coin> = Vec::new();
    let n = v.len();
    let mut i: usize = 0;
    while i < n
        invariant
            n == v@.len(),
            i <= n,
            r@ == v@.take(i as int),
        decreases n - i,
    {
        r.push(v[i].clone());
        proof {
            assert(r@ =~= v@.take(i + 1));
        }
        i = i + 1;
    }
    proof {
        assert(v@.take(n as int) =~= v@);
    }
    r
}

/// Duplicates a list of tokenized coins exactly.
pub fn clone_cw20s(v: &Vec<Cw20Coin>) -> (r: Vec<Cw20Coin>)
    ensures
        r@ == v@,
{
    let mut r: Vec<Cw20Coin> = Vec::new();
    let n = v.len();
    let mut i: usize = 0;
    while i < n
        invariant
            n == v@.len(),
            i <= n,
            r@ == v@.take(i as int),
        decreases n - i,
    {
        r.push(v[i].clone());
        proof {
            assert(r@ =~= v@.take(i + 1));
        }
        i = i + 1;
    }
    proof {
        assert(v@.take(n as int) =~= v@);
    }
    r
}

/// Duplicates a list of identity strings exactly.
pub fn clone_strings(v: &Vec<String>) -> (r: Vec<String>)
    ensures
        r@ == v@,
{
    let mut r: Vec<String> = Vec::new();
    let n = v.len();
    let mut i: usize = 0;
    while i < n
        invariant
            n == v@.len(),
            i <= n,
            r@ == v@.take(i as int),
        decreases n - i,
    {
        r.push(v[i].clone());
        proof {
            assert(r@ =~= v@.take(i + 1));
        }
        i = i + 1;
    }
    proof {
        assert(v@.take(n as int) =~= v@);
    }
    r
}

/// An asset amount handed to an operation: either a batch of native coins
/// or a single tokenized amount.
pub enum Balance {
    Native(Vec<Coin>),
    Cw20(Cw20Coin),
}

impl Balance {
    /// A balance is empty when it carries no nonzero quantity.
    pub open spec fn spec_is_empty(&self) -> bool {
        match self {
            Balance::Native(v) => forall|i: int| 0 <= i < v@.len() ==> (#[trigger] v@[i]).amount
                == 0,
            Balance::Cw20(c) => c.amount == 0,
        }
    }

    /// Whether the balance carries no nonzero quantity.
    #[verifier::loop_isolation(false)]
    pub fn is_empty(&self) -> (r: bool)
        ensures
            r == self.spec_is_empty(),
    {
        match self {
            Balance::Native(v) => {
                let n = v.len();
                let mut i: usize = 0;
                while i < n
                    invariant
                        n == v@.len(),
                        i <= n,
                        forall|j: int| 0 <= j < i ==> (#[trigger] v@[j]).amount == 0,
                    decreases n - i,
                {
                    if v[i].amount != 0 {
                        proof {
                            assert((#[trigger] v@[i as int]).amount != 0);
                        }
                        return false;
                    }
                    i = i + 1;
                }
                true
            },
            Balance::Cw20(c) => c.amount == 0,
        }
    }
}

/// Spec-level model of the whole ledger: the native entries and the
/// tokenized entries.
#[verifier::ext_equal]
pub ghost struct BalanceModel {
    pub native: Seq<EntryModel>,
    pub cw20: Seq<EntryModel>,
}

impl BalanceModel {
    /// The ledger invariant: no two entries of an asset class share a key.
    pub open spec fn wf(&self) -> bool {
        distinct_keys(self.native) && distinct_keys(self.cw20)
    }

    /// Every quantity is non-negative (as any ledger built from machine
    /// quantities is).
    pub open spec fn nonneg(&self) -> bool {
        (forall|i: int| 0 <= i < self.native.len() ==> (#[trigger] self.native[i]).amount >= 0)
            && (forall|i: int| 0 <= i < self.cw20.len() ==> (#[trigger] self.cw20[i]).amount
            >= 0)
    }

    /// The ledger after merging in a balance.
    pub open spec fn add_balance(&self, b: Balance) -> BalanceModel {
        match b {
            Balance::Native(v) => BalanceModel {
                native: add_entries(self.native, coin_entries(v@)),
                cw20: self.cw20,
            },
            Balance::Cw20(c) => BalanceModel {
                native: self.native,
                cw20: add_entry(self.cw20, c@),
            },
        }
    }

    /// The ledger after removing a balance, or `None` when the removal
    /// must fail.
    pub open spec fn remove_balance(&self, b: &Balance) -> Option<BalanceModel> {
        match b {
            Balance::Native(v) => match sub_entries(self.native, coin_entries(v@)) {
                Some(m) => Some(BalanceModel { native: m, cw20: self.cw20 }),
                None => None,
            },
            Balance::Cw20(c) => match sub_entry(self.cw20, c@) {
                Some(m) => Some(BalanceModel { native: self.native, cw20: m }),
                None => None,
            },
        }
    }

    /// Merging in the balance stays within the machine range of a
    /// quantity at every step.
    pub open spec fn fits_add_balance(&self, b: Balance) -> bool {
        match b {
            Balance::Native(v) => fits_add_entries(self.native, coin_entries(v@)),
            Balance::Cw20(c) => fits_add_entry(self.cw20, c@),
        }
    }
}

/// The multi-asset ledger held by one escrow.
pub struct GenericBalance {
    pub native: Vec<Coin>,
    pub cw20: Vec<Cw20Coin>,
}

impl View for GenericBalance {
    type V = BalanceModel;

    open spec fn view(&self) -> BalanceModel {
        BalanceModel { native: coin_entries(self.native@), cw20: cw20_entries(self.cw20@) }
    }
}

impl GenericBalance {
    /// The ledger's invariant: no two entries of an asset class share a key.
    pub open spec fn wf(&self) -> bool {
        self@.wf()
    }

    /// The bound that `add_tokens` needs: every merge step stays within the
    /// machine range of a quantity.
    pub open spec fn fits_add(&self, add: Balance) -> bool {
        self@.fits_add_balance(add)
    }

    /// The ledger after `add_tokens(add)`.
    pub open spec fn spec_add(&self, add: Balance) -> BalanceModel {
        self@.add_balance(add)
    }

    /// The ledger after `remove_tokens(rem)`, or `None` when the removal
    /// must fail.
    pub open spec fn spec_remove(&self, rem: &Balance) -> Option<BalanceModel> {
        self@.remove_balance(rem)
    }

    /// An empty ledger.
    pub fn new() -> (r: Self)
        ensures
            r@.native =~= Seq::<EntryModel>::empty(),
            r@.cw20 =~= Seq::<EntryModel>::empty(),
            r.wf(),
            r.native@.len() == 0,
            r.cw20@.len() == 0,
    {
        GenericBalance { native: Vec::new(), cw20: Vec::new() }
    }

    /// True iff both asset classes hold no entry at all.
    pub fn is_empty(&self) -> (r: bool)
        ensures
            r == (self.native@.len() == 0 && self.cw20@.len() == 0),
    {
        self.native.is_empty() && self.cw20.is_empty()
    }

    /// Merges every amount of `add` into the ledger.  Never fails.
    #[verifier::loop_isolation(false)]
    pub fn add_tokens(&mut self, add: Balance)
        requires
            old(self).wf(),
            old(self).fits_add(add),
        ensures
            final(self).wf(),
            final(self)@ == old(self).spec_add(add),
    {
        match add {
            Balance::Native(coins) => {
                proof {
                    assert(coin_entries(coins@).skip(0) =~= coin_entries(coins@));
                }
                let n = coins.len();
                let mut i: usize = 0;
                while i < n
                    invariant
                        n == coins@.len(),
                        i <= n,
                        distinct_keys(coin_entries(self.native@)),
                        fits_add_entries(
                            coin_entries(self.native@),
                            coin_entries(coins@).skip(i as int),
                        ),
                        add_entries(
                            coin_entries(self.native@),
                            coin_entries(coins@).skip(i as int),
                        ) == add_entries(coin_entries(old(self).native@), coin_entries(coins@)),
                        self.cw20@ == old(self).cw20@,
                    decreases n - i,
                {
                    proof {
                        let es = coin_entries(coins@);
                        assert(es.skip(i as int)[0] == coins@[i as int]@);
                        assert(es.skip(i as int).skip(1) =~= es.skip(i + 1));
                    }
                    let c = coins[i].clone();
                    add_native(&mut self.native, c);
                    i = i + 1;
                }
                proof {
                    assert(coin_entries(coins@).skip(n as int)
                        =~= Seq::<EntryModel>::empty());
                }
            },
            Balance::Cw20(c) => {
                add_cw20(&mut self.cw20, c);
            },
        }
    }

    /// Removes every amount of `rem` from the ledger, all or nothing: when
    /// any key is absent or holds too little, the ledger is left exactly as
    /// it was and `Err(())` is returned.
    #[verifier::loop_isolation(false)]
    pub fn remove_tokens(&mut self, rem: &Balance) -> (r: Result<(), ()>)
        requires
            old(self).wf(),
        ensures
            final(self).wf(),
            match old(self).spec_remove(rem) {
                Some(m) => r is Ok && final(self)@ == m,
                None => r is Err && final(self)@ == old(self)@,
            },
    {
        match rem {
            Balance::Native(coins) => {
                let mut scratch = clone_coins(&self.native);
                proof {
                    assert(coin_entries(coins@).skip(0) =~= coin_entries(coins@));
                }
                let n = coins.len();
                let mut i: usize = 0;
                while i < n
                    invariant
                        n == coins@.len(),
                        i <= n,
                        old(self).wf(),
                        distinct_keys(coin_entries(scratch@)),
                        sub_entries(coin_entries(scratch@), coin_entries(coins@).skip(i as int))
                            == sub_entries(
                            coin_entries(old(self).native@),
                            coin_entries(coins@),
                        ),
                        *self == *old(self),
                    decreases n - i,
                {
                    proof {
                        let es = coin_entries(coins@);
                        assert(es.skip(i as int)[0] == coins@[i as int]@);
                        assert(es.skip(i as int).skip(1) =~= es.skip(i + 1));
                    }
                    let ok = sub_native(&mut scratch, &coins[i]);
                    if !ok {
                        proof {
                            let es = coin_entries(coins@);
                            assert(sub_entry(coin_entries(scratch@), es.skip(i as int)[0])
                                is None);
                            assert(sub_entries(coin_entries(scratch@), es.skip(i as int))
                                is None);
                        }
                        return Err(());
                    }
                    i = i + 1;
                }
                proof {
                    assert(coin_entries(coins@).skip(n as int)
                        =~= Seq::<EntryModel>::empty());
                }
                self.native = scratch;
                Ok(())
            },
            Balance::Cw20(c) => {
                let ok = sub_cw20(&mut self.cw20, &c);
                if ok {
                    Ok(())
                } else {
                    Err(())
                }
            },
        }
    }
}

impl Default for GenericBalance {
    /// The empty ledger.
    fn default() -> (r: Self)
        ensures
            r.wf(),
            r.native@.len() == 0,
            r.cw20@.len() == 0,
    {
        GenericBalance { native: Vec::new(), cw20: Vec::new() }
    }
}

/// The index of the native entry with denomination `denom`, if any.
fn find_native(v: &Vec<Coin>, denom: &String) -> (r: Option<usize>)
    requires
        distinct_keys(coin_entries(v@)),
    ensures
        match r {
            Some(i) => i < v@.len() && v@[i as int].denom@ == denom@ && has_key(
                coin_entries(v@),
                denom@,
            ) && key_index(coin_entries(v@), denom@) == i as int,
            None => !has_key(coin_entries(v@), denom@),
        },
{
    let n = v.len();
    let mut i: usize = 0;
    while i < n
        invariant
            n == v@.len(),
            i <= n,
            distinct_keys(coin_entries(v@)),
            forall|j: int| 0 <= j < i ==> (#[trigger] v@[j]).denom@ != denom@,
        decreases n - i,
    {
        if v[i].denom == *denom {
            proof {
                lemma_key_index_agrees(coin_entries(v@), denom@, i as int);
            }
            return Some(i);
        }
        i = i + 1;
    }
    proof {
        assert forall|j: int| 0 <= j < coin_entries(v@).len() implies (#[trigger] coin_entries(
            v@,
        )[j]).key != denom@ by {
            assert(coin_entries(v@)[j] == v@[j]@);
        }
    }
    None
}

/// The index of the tokenized entry with contract identity `addr`, if any.
fn find_cw20(v: &Vec<Cw20Coin>, addr: &String) -> (r: Option<usize>)
    requires
        distinct_keys(cw20_entries(v@)),
    ensures
        match r {
            Some(i) => i < v@.len() && v@[i as int].address@ == addr@ && has_key(
                cw20_entries(v@),
                addr@,
            ) && key_index(cw20_entries(v@), addr@) == i as int,
            None => !has_key(cw20_entries(v@), addr@),
        },
{
    let n = v.len();
    let mut i: usize = 0;
    while i < n
        invariant
            n == v@.len(),
            i <= n,
            distinct_keys(cw20_entries(v@)),
            forall|j: int| 0 <= j < i ==> (#[trigger] v@[j]).address@ != addr@,
        decreases n - i,
    {
        if v[i].address == *addr {
            proof {
                lemma_key_index_agrees(cw20_entries(v@), addr@, i as int);
            }
            return Some(i);
        }
        i = i + 1;
    }
    proof {
        assert forall|j: int| 0 <= j < cw20_entries(v@).len() implies (#[trigger] cw20_entries(
            v@,
        )[j]).key != addr@ by {
            assert(cw20_entries(v@)[j] == v@[j]@);
        }
    }
    None
}

/// Merges one native coin into the entry list.
fn add_native(v: &mut Vec<Coin>, c: Coin)
    requires
        distinct_keys(coin_entries(old(v)@)),
        fits_add_entry(coin_entries(old(v)@), c@),
    ensures
        distinct_keys(coin_entries(final(v)@)),
        coin_entries(final(v)@) == add_entry(coin_entries(old(v)@), c@),
{
    proof {
        lemma_add_entry_distinct(coin_entries(v@), c@);
    }
    match find_native(v, &c.denom) {
        Some(i) => {
            let a = v[i].amount;
            v[i].amount = a + c.amount;
            proof {
                assert(coin_entries(v@) =~= add_entry(coin_entries(old(v)@), c@));
            }
        },
        None => {
            v.push(c);
            proof {
                assert(coin_entries(v@) =~= add_entry(coin_entries(old(v)@), c@));
            }
        },
    }
}

/// Merges one tokenized coin into the entry list.
fn add_cw20(v: &mut Vec<Cw20Coin>, c: Cw20Coin)
    requires
        distinct_keys(cw20_entries(old(v)@)),
        fits_add_entry(cw20_entries(old(v)@), c@),
    ensures
        distinct_keys(cw20_entries(final(v)@)),
        cw20_entries(final(v)@) == add_entry(cw20_entries(old(v)@), c@),
{
    proof {
        lemma_add_entry_distinct(cw20_entries(v@), c@);
    }
    match find_cw20(v, &c.address) {
        Some(i) => {
            let a = v[i].amount;
            v[i].amount = a + c.amount;
            proof {
                assert(cw20_entries(v@) =~= add_entry(cw20_entries(old(v)@), c@));
            }
        },
        None => {
            v.push(c);
            proof {
                assert(cw20_entries(v@) =~= add_entry(cw20_entries(old(v)@), c@));
            }
        },
    }
}

/// Decrements one native entry in place; `false` (and no change) when the
/// key is absent or holds too little.
fn sub_native(v: &mut Vec<Coin>, c: &Coin) -> (r: bool)
    requires
        distinct_keys(coin_entries(old(v)@)),
    ensures
        distinct_keys(coin_entries(final(v)@)),
        match sub_entry(coin_entries(old(v)@), c@) {
            Some(m) => r && coin_entries(final(v)@) == m,
            None => !r && final(v)@ == old(v)@,
        },
{
    proof {
        lemma_sub_entry_distinct(coin_entries(v@), c@);
    }
    match find_native(v, &c.denom) {
        Some(i) => {
            let a = v[i].amount;
            if a >= c.amount {
                v[i].amount = a - c.amount;
                proof {
                    assert(coin_entries(v@) =~= sub_entry(coin_entries(old(v)@), c@)->Some_0);
                }
                true
            } else {
                false
            }
        },
        None => false,
    }
}

/// Decrements one tokenized entry in place; `false` (and no change) when
/// the key is absent or holds too little.
fn sub_cw20(v: &mut Vec<Cw20Coin>, c: &Cw20Coin) -> (r: bool)
    requires
        distinct_keys(cw20_entries(old(v)@)),
    ensures
        distinct_keys(cw20_entries(final(v)@)),
        match sub_entry(cw20_entries(old(v)@), c@) {
            Some(m) => r && cw20_entries(final(v)@) == m,
            None => !r && final(v)@ == old(v)@,
        },
{
    proof {
        lemma_sub_entry_distinct(cw20_entries(v@), c@);
    }
    match find_cw20(v, &c.address) {
        Some(i) => {
            let a = v[i].amount;
            if a >= c.amount {
                v[i].amount = a - c.amount;
                proof {
                    assert(cw20_entries(v@) =~= sub_entry(cw20_entries(old(v)@), c@)->Some_0);
                }
                true
            } else {
                false
            }
        },
        None => false,
    }
}

} // verus!
