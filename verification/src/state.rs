//! The escrow record and the registry of escrows.
//!
//! The registry replaces the host's byte-keyed persistent store with a
//! verified, ordered collection: entries are kept sorted by id, so
//! enumeration yields ids in ascending lexicographic order, and each id
//! occurs at most once.

use vstd::prelude::*;
use vstd::string::StrSliceExecFns;

use crate::balance::{BalanceModel, GenericBalance, clone_strings};

verus! {

/// Strict lexicographic order on identifier strings, by code point.
///
/// For valid UTF-8 this coincides with lexicographic order on the raw id
/// bytes, since UTF-8 preserves code-point order.
pub open spec fn lex_lt(a: Seq<char>, b: Seq<char>) -> bool
    decreases a.len(),
{
    if b.len() == 0 {
        false
    } else if a.len() == 0 {
        true
    } else if a[0] != b[0] {
        (a[0] as u32) < (b[0] as u32)
    } else {
        lex_lt(a.skip(1), b.skip(1))
    }
}

/// The order is irreflexive.
pub proof fn lemma_lex_lt_irreflexive(a: Seq<char>)
    ensures
        !lex_lt(a, a),
    decreases a.len(),
{
    if a.len() > 0 {
        lemma_lex_lt_irreflexive(a.skip(1));
    }
}

/// Any two distinct strings are ordered one way or the other.
pub proof fn lemma_lex_lt_total(a: Seq<char>, b: Seq<char>)
    requires
        a != b,
    ensures
        lex_lt(a, b) || lex_lt(b, a),
    decreases a.len(),
{
    if a.len() == 0 || b.len() == 0 {
        if a.len() == 0 && b.len() == 0 {
            assert(a =~= b);
        } else if a.len() == 0 {
            assert(lex_lt(a, b));
        } else {
            assert(lex_lt(b, a));
        }
    } else {
        if a[0] != b[0] {
            assert((a[0] as u32) != (b[0] as u32)) by {
                vstd::utf8::char_u32_cast(a[0], a[0] as u32);
                vstd::utf8::char_u32_cast(b[0], b[0] as u32);
            }
        } else if a[0] == b[0] {
            if a.skip(1) == b.skip(1) {
                assert(a =~= b) by {
                    assert(a.skip(1).len() == b.skip(1).len());
                    assert forall|i: int| 0 <= i < a.len() implies a[i] == b[i] by {
                        if i > 0 {
                            assert(a.skip(1)[i - 1] == b.skip(1)[i - 1]);
                        }
                    }
                }
            } else {
                lemma_lex_lt_total(a.skip(1), b.skip(1));
            }
        }
    }
}

/// The order is transitive.
pub proof fn lemma_lex_lt_transitive(a: Seq<char>, b: Seq<char>, c: Seq<char>)
    requires
        lex_lt(a, b),
        lex_lt(b, c),
    ensures
        lex_lt(a, c),
    decreases a.len(),
{
    if a.len() > 0 && b.len() > 0 && c.len() > 0 {
        if a[0] == b[0] && b[0] == c[0] {
            lemma_lex_lt_transitive(a.skip(1), b.skip(1), c.skip(1))
        }
    }
}

/// Compares two identifier strings in the lexicographic order.
pub fn str_lt(a: &str, b: &str) -> (r: bool)
    ensures
        r == lex_lt(a@, b@),
{
    let alen = a.unicode_len();
    let blen = b.unicode_len();
    proof {
        assert(a@.skip(0) =~= a@);
        assert(b@.skip(0) =~= b@);
    }
    let mut i: usize = 0;
    loop
        invariant
            i <= alen,
            i <= blen,
            alen == a@.len(),
            blen == b@.len(),
            lex_lt(a@, b@) == lex_lt(a@.skip(i as int), b@.skip(i as int)),
        decreases alen - i,
    {
        if i == blen {
            return false;
        }
        if i == alen {
            return true;
        }
        let ca = a.get_char(i);
        let cb = b.get_char(i);
        proof {
            assert(a@.skip(i as int)[0] == a@[i as int]);
            assert(b@.skip(i as int)[0] == b@[i as int]);
        }
        if ca != cb {
            return (ca as u32) < (cb as u32);
        }
        proof {
            assert(a@.skip(i as int).skip(1) =~= a@.skip(i + 1));
            assert(b@.skip(i as int).skip(1) =~= b@.skip(i + 1));
        }
        i = i + 1;
    }
}

/// Whether a list of identity strings contains `x`.
pub open spec fn ids_contain(s: Seq<Seq<char>>, x: Seq<char>) -> bool {
    exists|i: int| 0 <= i < s.len() && s[i] == x
}

/// Whether an owned list of identity strings contains `x`.
pub fn contains_string(v: &Vec<String>, x: &String) -> (r: bool)
    ensures
        r == ids_contain(v.deep_view(), x@),
{
    let n = v.len();
    let mut i: usize = 0;
    while i < n
        invariant
            n == v@.len(),
            i <= n,
            forall|j: int| 0 <= j < i ==> v.deep_view()[j] != x@,
        decreases n - i,
    {
        if v[i] == *x {
            proof {
                assert(v.deep_view()[i as int] == x@);
            }
            return true;
        }
        proof {
            assert(v.deep_view()[i as int] == v@[i as int]@);
        }
        i = i + 1;
    }
    false
}

/// Spec-level model of one escrow record.
#[verifier::ext_equal]
pub ghost struct ClawbackModel {
    pub backup: Seq<char>,
    pub holder: Seq<char>,
    pub end_time: u64,
    pub clawback_period: u64,
    pub balance: BalanceModel,
    pub whitelist: Seq<Seq<char>>,
}

/// One escrow: a time-gated custody record.
pub struct Clawback {
    /// The identity that before `end_time` may transfer within the
    /// clawback ring or burn the escrowed assets.
    pub backup: String,
    /// The receiver of the assets: before `end_time` it may only transfer
    /// within the clawback ring; at or after `end_time` it may withdraw.
    pub holder: String,
    /// End of the clawback window, in seconds since the UNIX epoch.
    pub end_time: u64,
    /// The duration of the clawback window in seconds
    /// (`end_time` = creation time + `clawback_period`).
    pub clawback_period: u64,
    /// The escrowed assets.
    pub balance: GenericBalance,
    /// The tokenized-asset contracts accepted by a top-up.
    pub cw20_whitelist: Vec<String>,
}

impl View for Clawback {
    type V = ClawbackModel;

    open spec fn view(&self) -> ClawbackModel {
        ClawbackModel {
            backup: self.backup@,
            holder: self.holder@,
            end_time: self.end_time,
            clawback_period: self.clawback_period,
            balance: self.balance@,
            whitelist: self.cw20_whitelist.deep_view(),
        }
    }
}

impl ClawbackModel {
    /// The escrow's invariant: its ledger keys are distinct.
    pub open spec fn wf(&self) -> bool {
        self.balance.wf()
    }

    /// Whether a tokenized-asset contract is accepted for top-up.
    pub open spec fn whitelisted(&self, addr: Seq<char>) -> bool {
        ids_contain(self.whitelist, addr)
    }
}

impl Clawback {
    /// The escrow's invariant: its ledger keys are distinct.
    pub open spec fn wf(&self) -> bool {
        self@.wf()
    }

    /// Whether the clawback window has lapsed: the current time is
    /// strictly past `end_time`.
    pub open spec fn spec_is_expired(&self, time: u64) -> bool {
        time > self.end_time
    }

    /// Whether the clawback window has lapsed at `time`.
    pub fn is_expired(&self, time: u64) -> (r: bool)
        ensures
            r == self.spec_is_expired(time),
    {
        time > self.end_time
    }

    /// Whether `addr` is an accepted tokenized-asset contract.
    pub fn is_whitelisted(&self, addr: &String) -> (r: bool)
        ensures
            r == self@.whitelisted(addr@),
    {
        contains_string(&self.cw20_whitelist, addr)
    }

    /// The whitelist as a fresh list of identity strings.
    pub fn human_whitelist(&self) -> (r: Vec<String>)
        ensures
            r@ == self.cw20_whitelist@,
    {
        clone_strings(&self.cw20_whitelist)
    }
}

impl Default for Clawback {
    /// An empty record: no parties, zero times, empty ledger and whitelist.
    fn default() -> (r: Self)
        ensures
            r.wf(),
            r@.backup.len() == 0,
            r@.holder.len() == 0,
            r@.end_time == 0,
            r@.clawback_period == 0,
            r.balance.native@.len() == 0,
            r.balance.cw20@.len() == 0,
            r@.whitelist.len() == 0,
    {
        Clawback {
            backup: String::new(),
            holder: String::new(),
            end_time: 0,
            clawback_period: 0,
            balance: GenericBalance::new(),
            cw20_whitelist: Vec::new(),
        }
    }
}

/// Spec-level model of one registry entry: an id and the escrow it names.
#[verifier::ext_equal]
pub ghost struct RegistryEntryModel {
    pub id: Seq<char>,
    pub clawback: ClawbackModel,
}

/// One keyed record of the registry.
pub struct RegistryEntry {
    pub id: String,
    pub clawback: Clawback,
}

impl View for RegistryEntry {
    type V = RegistryEntryModel;

    open spec fn view(&self) -> RegistryEntryModel {
        RegistryEntryModel { id: self.id@, clawback: self.clawback@ }
    }
}

/// Entries are in strictly ascending id order (which also makes the ids
/// pairwise distinct).
pub open spec fn entries_sorted(s: Seq<RegistryEntryModel>) -> bool {
    forall|i: int, j: int| 0 <= i < j < s.len() ==> lex_lt(
        (#[trigger] s[i]).id,
        (#[trigger] s[j]).id,
    )
}

/// Whether some entry carries the id.
pub open spec fn entries_has(s: Seq<RegistryEntryModel>, id: Seq<char>) -> bool {
    exists|i: int| 0 <= i < s.len() && (#[trigger] s[i]).id == id
}

/// The index of the entry carrying the id (meaningful when the entries are
/// sorted and the id is present).
pub open spec fn entries_index_of(s: Seq<RegistryEntryModel>, id: Seq<char>) -> int {
    choose|i: int| 0 <= i < s.len() && (#[trigger] s[i]).id == id
}

/// The escrow stored under the id.
pub open spec fn entries_get(s: Seq<RegistryEntryModel>, id: Seq<char>) -> ClawbackModel {
    s[entries_index_of(s, id)].clawback
}

/// The registry's contents as a map from id to escrow.
pub open spec fn entries_map(s: Seq<RegistryEntryModel>) -> Map<Seq<char>, ClawbackModel> {
    Map::new(|k: Seq<char>| entries_has(s, k), |k: Seq<char>| entries_get(s, k))
}

/// In a sorted entry sequence, ids are pairwise distinct.
pub proof fn lemma_sorted_distinct(s: Seq<RegistryEntryModel>)
    requires
        entries_sorted(s),
    ensures
        forall|i: int, j: int| 0 <= i < j < s.len() ==> (#[trigger] s[i]).id != (
        #[trigger] s[j]).id,
{
    assert forall|i: int, j: int| 0 <= i < j < s.len() implies (#[trigger] s[i]).id != (
    #[trigger] s[j]).id by {
        if s[i].id == s[j].id {
            lemma_lex_lt_irreflexive(s[i].id);
        }
    }
}

/// In a sorted entry sequence, `entries_index_of` names exactly the index
/// where the id was found.
pub proof fn lemma_entries_index_agrees(s: Seq<RegistryEntryModel>, id: Seq<char>, i: int)
    requires
        entries_sorted(s),
        0 <= i < s.len(),
        s[i].id == id,
    ensures
        entries_has(s, id),
        entries_index_of(s, id) == i,
{
    lemma_sorted_distinct(s);
    assert(entries_has(s, id));
    let j = entries_index_of(s, id);
    assert(0 <= j < s.len() && s[j].id == id);
}

/// Inserting an entry at its sorted position keeps the sequence sorted and
/// adds exactly one binding to the registry's map.
pub proof fn lemma_entries_insert(s: Seq<RegistryEntryModel>, pos: int, e: RegistryEntryModel)
    requires
        entries_sorted(s),
        0 <= pos <= s.len(),
        forall|j: int| 0 <= j < pos ==> lex_lt((#[trigger] s[j]).id, e.id),
        forall|j: int| pos <= j < s.len() ==> lex_lt(e.id, (#[trigger] s[j]).id),
    ensures
        entries_sorted(s.insert(pos, e)),
        entries_map(s.insert(pos, e)) == entries_map(s).insert(e.id, e.clawback),
{
    let s1 = s.insert(pos, e);
    assert forall|i: int, j: int| 0 <= i < j < s1.len() implies lex_lt(
        (#[trigger] s1[i]).id,
        (#[trigger] s1[j]).id,
    ) by {
        if i < pos {
            assert(s1[i] == s[i]);
        } else if i == pos {
            assert(s1[i] == e);
        } else {
            assert(s1[i] == s[i - 1]);
        }
        if j < pos {
            assert(s1[j] == s[j]);
        } else if j == pos {
            assert(s1[j] == e);
        } else {
            assert(s1[j] == s[j - 1]);
        }
    }
    assert forall|k: Seq<char>| entries_has(s1, k) <==> (entries_has(s, k) || k == e.id) by {
        if entries_has(s1, k) {
            let i = choose|i: int| 0 <= i < s1.len() && (#[trigger] s1[i]).id == k;
            if i < pos {
                assert(s[i].id == k);
            } else if i == pos {
                assert(k == e.id);
            } else {
                assert(s[i - 1].id == k);
            }
        }
        if entries_has(s, k) {
            let i = choose|i: int| 0 <= i < s.len() && (#[trigger] s[i]).id == k;
            if i < pos {
                assert(s1[i].id == k);
            } else {
                assert(s1[i + 1].id == k);
            }
        }
        if k == e.id {
            assert(s1[pos].id == k);
        }
    }
    let m1 = entries_map(s1);
    let m2 = entries_map(s).insert(e.id, e.clawback);
    assert forall|k: Seq<char>| m1.dom().contains(k) implies m1[k] == m2[k] by {
        if k == e.id {
            lemma_entries_index_agrees(s1, k, pos);
        } else {
            let i = choose|i: int| 0 <= i < s.len() && (#[trigger] s[i]).id == k;
            lemma_entries_index_agrees(s, k, i);
            if i < pos {
                lemma_entries_index_agrees(s1, k, i);
            } else {
                lemma_entries_index_agrees(s1, k, i + 1);
            }
        }
    }
    assert(m1 =~= m2);
}

/// Replacing the entry at `pos` by one with the same id keeps the sequence
/// sorted and overwrites exactly one binding of the registry's map.
pub proof fn lemma_entries_update(s: Seq<RegistryEntryModel>, pos: int, e: RegistryEntryModel)
    requires
        entries_sorted(s),
        0 <= pos < s.len(),
        s[pos].id == e.id,
    ensures
        entries_sorted(s.update(pos, e)),
        entries_map(s.update(pos, e)) == entries_map(s).insert(e.id, e.clawback),
{
    let s1 = s.update(pos, e);
    assert forall|i: int, j: int| 0 <= i < j < s1.len() implies lex_lt(
        (#[trigger] s1[i]).id,
        (#[trigger] s1[j]).id,
    ) by {
        assert(s1[i].id == s[i].id);
        assert(s1[j].id == s[j].id);
    }
    assert forall|k: Seq<char>| entries_has(s1, k) <==> entries_has(s, k) by {
        if entries_has(s1, k) {
            let i = choose|i: int| 0 <= i < s1.len() && (#[trigger] s1[i]).id == k;
            assert(s[i].id == k);
        }
        if entries_has(s, k) {
            let i = choose|i: int| 0 <= i < s.len() && (#[trigger] s[i]).id == k;
            assert(s1[i].id == k);
        }
    }
    let m1 = entries_map(s1);
    let m2 = entries_map(s).insert(e.id, e.clawback);
    assert forall|k: Seq<char>| m1.dom().contains(k) implies m1[k] == m2[k] by {
        if k == e.id {
            lemma_entries_index_agrees(s1, k, pos);
        } else {
            let i = choose|i: int| 0 <= i < s.len() && (#[trigger] s[i]).id == k;
            lemma_entries_index_agrees(s, k, i);
            lemma_entries_index_agrees(s1, k, i);
        }
    }
    assert(m1 =~= m2);
}

/// Removing the entry at `pos` keeps the sequence sorted and removes
/// exactly one binding from the registry's map.
pub proof fn lemma_entries_remove(s: Seq<RegistryEntryModel>, pos: int)
    requires
        entries_sorted(s),
        0 <= pos < s.len(),
    ensures
        entries_sorted(s.remove(pos)),
        entries_map(s.remove(pos)) == entries_map(s).remove(s[pos].id),
{
    lemma_sorted_distinct(s);
    let s1 = s.remove(pos);
    assert forall|i: int, j: int| 0 <= i < j < s1.len() implies lex_lt(
        (#[trigger] s1[i]).id,
        (#[trigger] s1[j]).id,
    ) by {
        if i < pos {
            assert(s1[i] == s[i]);
        } else {
            assert(s1[i] == s[i + 1]);
        }
        if j < pos {
            assert(s1[j] == s[j]);
        } else {
            assert(s1[j] == s[j + 1]);
        }
    }
    assert forall|k: Seq<char>| entries_has(s1, k) <==> (entries_has(s, k) && k != s[pos].id) by {
        if entries_has(s1, k) {
            let i = choose|i: int| 0 <= i < s1.len() && (#[trigger] s1[i]).id == k;
            if i < pos {
                assert(s[i].id == k);
            } else {
                assert(s[i + 1].id == k);
            }
        }
        if entries_has(s, k) && k != s[pos].id {
            let i = choose|i: int| 0 <= i < s.len() && (#[trigger] s[i]).id == k;
            if i < pos {
                assert(s1[i].id == k);
            } else {
                assert(i != pos);
                assert(s1[i - 1].id == k);
            }
        }
    }
    let m1 = entries_map(s1);
    let m2 = entries_map(s).remove(s[pos].id);
    assert forall|k: Seq<char>| m1.dom().contains(k) implies m1[k] == m2[k] by {
        let i = choose|i: int| 0 <= i < s.len() && (#[trigger] s[i]).id == k;
        lemma_entries_index_agrees(s, k, i);
        if i < pos {
            lemma_entries_index_agrees(s1, k, i);
        } else {
            lemma_entries_index_agrees(s1, k, i - 1);
        }
    }
    assert(m1 =~= m2);
}

/// The registry of escrows: a typed, ordered replacement for the host's
/// byte-keyed persistent store.
pub struct Registry {
    pub entries: Vec<RegistryEntry>,
}

impl Registry {
    /// The registry's contents as a sequence of entry models, in storage
    /// order.
    pub open spec fn model(self) -> Seq<RegistryEntryModel> {
        self.entries@.map_values(|e: RegistryEntry| e@)
    }

    /// The registered ids, in storage order.
    pub open spec fn ids(self) -> Seq<Seq<char>> {
        self.model().map_values(|e: RegistryEntryModel| e.id)
    }

    /// The registry's invariant: entries in strictly ascending id order,
    /// each holding a well-formed escrow.
    pub open spec fn wf(self) -> bool {
        &&& entries_sorted(self.model())
        &&& forall|i: int| 0 <= i < self.model().len() ==> (#[trigger] self.model()[i]).clawback.wf()
    }

    /// Whether an escrow is registered under the id.
    pub open spec fn has(self, id: Seq<char>) -> bool {
        entries_has(self.model(), id)
    }

    /// The escrow registered under the id.
    pub open spec fn get(self, id: Seq<char>) -> ClawbackModel {
        entries_get(self.model(), id)
    }

    /// The registry's contents as a map from id to escrow.
    pub open spec fn as_map(self) -> Map<Seq<char>, ClawbackModel> {
        entries_map(self.model())
    }

    /// An empty registry.
    pub fn new() -> (r: Self)
        ensures
            r.wf(),
            r.model().len() == 0,
            r.as_map() == Map::<Seq<char>, ClawbackModel>::empty(),
    {
        let r = Registry { entries: Vec::new() };
        proof {
            assert(r.model() =~= Seq::<RegistryEntryModel>::empty());
            assert(r.as_map() =~= Map::<Seq<char>, ClawbackModel>::empty());
        }
        r
    }

    /// Finds the id, or the sorted position where it would be inserted.
    /// Returns `(found, pos)`.
    #[verifier::loop_isolation(false)]
    fn locate(&self, id: &String) -> (r: (bool, usize))
        requires
            self.wf(),
        ensures
            r.0 ==> r.1 < self.model().len() && self.model()[r.1 as int].id == id@
                && self.has(id@) && entries_index_of(self.model(), id@) == r.1 as int,
            !r.0 ==> !self.has(id@) && r.1 <= self.model().len() && (forall|j: int|
                0 <= j < r.1 ==> lex_lt((#[trigger] self.model()[j]).id, id@)) && (forall|j: int|
                r.1 <= j < self.model().len() ==> lex_lt(id@, (#[trigger] self.model()[j]).id)),
    {
        let n = self.entries.len();
        let mut i: usize = 0;
        while i < n
            invariant
                i <= n,
                forall|j: int| 0 <= j < i ==> lex_lt((#[trigger] self.model()[j]).id, id@),
            decreases n - i,
        {
            proof {
                assert(self.model()[i as int] == self.entries@[i as int]@);
            }
            if self.entries[i].id == *id {
                proof {
                    lemma_entries_index_agrees(self.model(), id@, i as int);
                }
                return (true, i);
            }
            if !str_lt(self.entries[i].id.as_str(), id.as_str()) {
                proof {
                    lemma_lex_lt_total(self.model()[i as int].id, id@);
                    assert(lex_lt(id@, self.model()[i as int].id));
                    assert forall|j: int| i <= j < self.model().len() implies lex_lt(
                        id@,
                        (#[trigger] self.model()[j]).id,
                    ) by {
                        if j > i {
                            lemma_lex_lt_transitive(
                                id@,
                                self.model()[i as int].id,
                                self.model()[j].id,
                            );
                        }
                    }
                    assert forall|j: int| 0 <= j < self.model().len() implies (
                    #[trigger] self.model()[j]).id != id@ by {
                        if self.model()[j].id == id@ {
                            lemma_lex_lt_irreflexive(id@);
                        }
                    }
                }
                return (false, i);
            }
            i = i + 1;
        }
        proof {
            assert forall|j: int| 0 <= j < self.model().len() implies (
            #[trigger] self.model()[j]).id != id@ by {
                if self.model()[j].id == id@ {
                    lemma_lex_lt_irreflexive(id@);
                }
            }
        }
        (false, n)
    }

    /// Whether an escrow is registered under the id.
    pub fn contains(&self, id: &String) -> (r: bool)
        requires
            self.wf(),
        ensures
            r == self.has(id@),
    {
        let (found, _pos) = self.locate(id);
        found
    }

    /// Borrows the escrow registered under the id, or `None` when the id
    /// is unknown.
    pub fn load(&self, id: &String) -> (r: Option<&Clawback>)
        requires
            self.wf(),
        ensures
            match r {
                Some(c) => self.has(id@) && c@ == self.get(id@) && c.wf(),
                None => !self.has(id@),
            },
    {
        let (found, pos) = self.locate(id);
        if found {
            proof {
                assert(self.model()[pos as int] == self.entries@[pos as int]@);
            }
            Some(&self.entries[pos].clawback)
        } else {
            None
        }
    }

    /// Registers a new escrow under the id; fails (and changes nothing)
    /// when the id is already in use.  Never overwrites.
    pub fn create(&mut self, id: String, clawback: Clawback) -> (r: Result<(), ()>)
        requires
            old(self).wf(),
            clawback.wf(),
        ensures
            final(self).wf(),
            match r {
                Ok(_) => !old(self).has(id@) && final(self).has(id@) && final(self).as_map()
                    == old(self).as_map().insert(id@, clawback@) && final(self).model().len()
                    == old(self).model().len() + 1,
                Err(_) => old(self).has(id@) && *final(self) == *old(self),
            },
    {
        let (found, pos) = self.locate(&id);
        if found {
            return Err(());
        }
        proof {
            lemma_entries_insert(
                self.model(),
                pos as int,
                RegistryEntryModel { id: id@, clawback: clawback@ },
            );
        }
        let ghost m0 = self.model();
        self.entries.insert(pos, RegistryEntry { id, clawback });
        proof {
            assert(self.model() =~= m0.insert(
                pos as int,
                RegistryEntryModel { id: id@, clawback: clawback@ },
            ));
            assert(self.has(id@)) by {
                assert(self.model()[pos as int].id == id@);
            }
        }
        Ok(())
    }

    /// Stores the escrow under the id unconditionally: overwrites an
    /// existing record or inserts a new one at its sorted position.
    pub fn save(&mut self, id: &String, clawback: Clawback)
        requires
            old(self).wf(),
            clawback.wf(),
        ensures
            final(self).wf(),
            final(self).as_map() == old(self).as_map().insert(id@, clawback@),
            final(self).has(id@),
            final(self).model().len() == old(self).model().len() + (
            if old(self).has(id@) {
                0int
            } else {
                1int
            }),
    {
        let (found, pos) = self.locate(id);
        let ghost m0 = self.model();
        if found {
            proof {
                lemma_entries_update(
                    self.model(),
                    pos as int,
                    RegistryEntryModel { id: id@, clawback: clawback@ },
                );
            }
            self.entries[pos] = RegistryEntry { id: id.clone(), clawback };
            proof {
                assert(self.model() =~= m0.update(
                    pos as int,
                    RegistryEntryModel { id: id@, clawback: clawback@ },
                ));
                assert(self.has(id@)) by {
                    assert(self.model()[pos as int].id == id@);
                }
            }
        } else {
            proof {
                lemma_entries_insert(
                    self.model(),
                    pos as int,
                    RegistryEntryModel { id: id@, clawback: clawback@ },
                );
            }
            self.entries.insert(pos, RegistryEntry { id: id.clone(), clawback });
            proof {
                assert(self.model() =~= m0.insert(
                    pos as int,
                    RegistryEntryModel { id: id@, clawback: clawback@ },
                ));
                assert(self.has(id@)) by {
                    assert(self.model()[pos as int].id == id@);
                }
            }
        }
    }

    /// Unregisters the id; a no-op when the id is unknown.
    pub fn delete(&mut self, id: &String)
        requires
            old(self).wf(),
        ensures
            final(self).wf(),
            final(self).as_map() == old(self).as_map().remove(id@),
            !final(self).has(id@),
            final(self).model().len() == old(self).model().len() - (
            if old(self).has(id@) {
                1int
            } else {
                0int
            }),
    {
        let (found, pos) = self.locate(id);
        let ghost m0 = self.model();
        if found {
            proof {
                lemma_entries_remove(self.model(), pos as int);
            }
            self.entries.remove(pos);
            proof {
                assert(self.model() =~= m0.remove(pos as int));
                lemma_sorted_distinct(m0);
                assert(!self.has(id@)) by {
                    if entries_has(self.model(), id@) {
                        let i = choose|i: int|
                            0 <= i < self.model().len() && (#[trigger] self.model()[i]).id == id@;
                        if i < pos {
                            assert(m0[i].id == id@);
                        } else {
                            assert(m0[i + 1].id == id@);
                        }
                    }
                }
            }
        } else {
            proof {
                assert(self.as_map() =~= old(self).as_map().remove(id@));
            }
        }
    }

    /// Removes the escrow registered under the id and hands it out.
    pub fn take(&mut self, id: &String) -> (r: Option<Clawback>)
        requires
            old(self).wf(),
        ensures
            final(self).wf(),
            match r {
                Some(c) => old(self).has(id@) && c@ == old(self).get(id@) && c.wf()
                    && final(self).as_map() == old(self).as_map().remove(id@)
                    && final(self).model().len() == old(self).model().len() - 1,
                None => !old(self).has(id@) && *final(self) == *old(self),
            },
    {
        let (found, pos) = self.locate(id);
        let ghost m0 = self.model();
        if found {
            proof {
                lemma_entries_remove(self.model(), pos as int);
                assert(self.model()[pos as int] == self.entries@[pos as int]@);
            }
            let entry = self.entries.remove(pos);
            proof {
                assert(self.model() =~= m0.remove(pos as int));
            }
            Some(entry.clawback)
        } else {
            None
        }
    }

    /// The registered ids, ascending.
    pub fn list_ids(&self) -> (r: Vec<String>)
        requires
            self.wf(),
        ensures
            r.deep_view() == self.ids(),
    {
        let n = self.entries.len();
        let mut r: Vec<String> = Vec::new();
        let mut i: usize = 0;
        while i < n
            invariant
                n == self.entries@.len(),
                i <= n,
                r@.len() == i,
                forall|j: int| 0 <= j < i ==> (#[trigger] r@[j])@ == self.ids()[j],
            decreases n - i,
        {
            proof {
                assert(self.model()[i as int] == self.entries@[i as int]@);
                assert(self.ids()[i as int] == self.model()[i as int].id);
            }
            r.push(self.entries[i].id.clone());
            i = i + 1;
        }
        proof {
            assert forall|j: int| 0 <= j < n implies r.deep_view()[j] == self.ids()[j] by {
                assert(r.deep_view()[j] == r@[j].deep_view());
            }
            assert(r.deep_view() =~= self.ids());
        }
        r
    }
}

/// The list of ids of all registered escrows, in ascending lexicographic
/// order.
pub fn all_clawback_ids(registry: &Registry) -> (r: Vec<String>)
    requires
        registry.wf(),
    ensures
        r.deep_view() == registry.ids(),
{
    registry.list_ids()
}

} // verus!
