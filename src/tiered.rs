//! A container that maps each amount tier (a coin denomination) to a value,
//! kept in ascending order of amount with no tier repeated.
use vstd::prelude::*;

verus! {

/// An amount of money in millisatoshis.
#[derive(Clone, Copy, Debug, PartialEq, Eq, Structural, PartialOrd, Ord, Hash)]
pub struct Amount {
    pub msats: u64,
}

impl Amount {
    pub fn from_msats(msats: u64) -> (r: Amount)
        ensures
            r.msats == msats,
    {
        Amount { msats }
    }
}

/// The amount asked for is not one of the container's tiers.
#[derive(Clone, Copy, Debug, PartialEq, Eq, Structural, PartialOrd, Ord, Hash)]
pub struct InvalidAmountTierError(pub Amount);

/// Values keyed by amount tier, ascending and without repeats.
#[derive(Debug, Clone, PartialEq, Eq, Hash)]
pub struct Tiered<T> {
    entries: Vec<(Amount, T)>,
}

/// Keys strictly ascending: each tier occurs once and in order.
pub open spec fn strictly_ascending<T>(s: Seq<(Amount, T)>) -> bool {
    forall|i: int, j: int| 0 <= i < j < s.len() ==> s[i].0.msats < s[j].0.msats
}

/// The tiers of a sequence of entries, in order.
pub open spec fn keys_of<T>(s: Seq<(Amount, T)>) -> Seq<Amount> {
    s.map_values(|e: (Amount, T)| e.0)
}

/// Some entry of `s` has tier `a`.
pub open spec fn has_tier<T>(s: Seq<(Amount, T)>, a: Amount) -> bool {
    exists|i: int| 0 <= i < s.len() && s[i].0 == a
}

/// How many entries of `s` have a tier below `a`: in an ascending sequence,
/// the position at which `a` stands or would be inserted.
pub open spec fn count_below<T>(s: Seq<(Amount, T)>, a: Amount) -> int
    decreases s.len(),
{
    if s.len() == 0 {
        0
    } else {
        count_below(s.drop_last(), a) + if s.last().0.msats < a.msats {
            1int
        } else {
            0int
        }
    }
}

/// In an ascending sequence whose first `i` tiers, and no others, lie below
/// `a`, `count_below` is `i`.
proof fn lemma_count_below<T>(s: Seq<(Amount, T)>, a: Amount, i: int)
    requires
        strictly_ascending(s),
        0 <= i <= s.len(),
        forall|k: int| 0 <= k < i ==> s[k].0.msats < a.msats,
        i < s.len() ==> s[i].0.msats >= a.msats,
    ensures
        count_below(s, a) == i,
    decreases s.len(),
{
    if s.len() > 0 {
        let t = s.drop_last();
        if i == s.len() {
            lemma_count_below(t, a, i - 1);
        } else {
            assert(s.last().0.msats >= a.msats);
            lemma_count_below(t, a, i);
        }
    }
}

/// `b` raised to the power `k`.
pub open spec fn pow(b: nat, k: nat) -> nat
    decreases k,
{
    if k == 0 {
        1
    } else {
        b * pow(b, (k - 1) as nat)
    }
}

impl<T> View for Tiered<T> {
    type V = Seq<(Amount, T)>;

    closed spec fn view(&self) -> Seq<(Amount, T)> {
        self.entries@
    }
}

impl<T> Default for Tiered<T> {
    fn default() -> (r: Self)
        ensures
            r@ == Seq::<(Amount, T)>::empty(),
    {
        Tiered { entries: Vec::new() }
    }
}

impl<T> Tiered<T> {
    /// Every container that this type's operations build is well formed.
    pub open spec fn wf(&self) -> bool {
        strictly_ascending(self@)
    }

    /// Returns the highest tier amount.
    pub fn max_tier(&self) -> (r: &Amount)
        requires
            self.wf(),
            self@.len() > 0,
        ensures
            *r == self@.last().0,
            forall|i: int| 0 <= i < self@.len() ==> self@[i].0.msats <= r.msats,
    {
        let n = self.entries.len();
        &self.entries[n - 1].0
    }

    /// Whether both containers have exactly the same tiers.
    pub fn structural_eq<O>(&self, other: &Tiered<O>) -> (r: bool)
        ensures
            r == (keys_of(self@) == keys_of(other@)),
    {
        if self.entries.len() != other.entries.len() {
            proof {
                assert(keys_of(self@).len() != keys_of(other@).len());
            }
            return false;
        }
        let mut i: usize = 0;
        while i < self.entries.len()
            invariant
                self.entries.len() == other.entries.len(),
                0 <= i <= self.entries.len(),
                forall|k: int| 0 <= k < i ==> self@[k].0 == other@[k].0,
            decreases self.entries.len() - i,
        {
            if self.entries[i].0.msats != other.entries[i].0.msats {
                proof {
                    assert(keys_of(self@)[i as int] != keys_of(other@)[i as int]);
                }
                return false;
            }
            i = i + 1;
        }
        proof {
            assert(keys_of(self@) =~= keys_of(other@));
        }
        true
    }

    /// Position of tier `amt`, if present.
    fn find(&self, amt: Amount) -> (r: Option<usize>)
        requires
            self.wf(),
        ensures
            match r {
                Some(i) => i < self@.len() && self@[i as int].0 == amt,
                None => !has_tier(self@, amt),
            },
    {
        let mut i: usize = 0;
        while i < self.entries.len()
            invariant
                0 <= i <= self.entries.len(),
                forall|k: int| 0 <= k < i ==> self@[k].0 != amt,
            decreases self.entries.len() - i,
        {
            if self.entries[i].0.msats == amt.msats {
                return Some(i);
            }
            i = i + 1;
        }
        None
    }

    /// Returns the value of the tier `amount`, or an error naming the amount.
    pub fn tier(&self, amount: &Amount) -> (r: Result<&T, InvalidAmountTierError>)
        requires
            self.wf(),
        ensures
            match r {
                Ok(v) => exists|i: int|
                    0 <= i < self@.len() && self@[i].0 == *amount && self@[i].1 == *v,
                Err(e) => e.0 == *amount && !has_tier(self@, *amount),
            },
    {
        match self.find(*amount) {
            Some(i) => Ok(&self.entries[i].1),
            None => Err(InvalidAmountTierError(*amount)),
        }
    }

    pub fn count_tiers(&self) -> (r: usize)
        ensures
            r == self@.len(),
    {
        self.entries.len()
    }

    /// The tiers, ascending.
    pub fn tiers(&self) -> (r: Vec<Amount>)
        ensures
            r@ == keys_of(self@),
    {
        let mut r: Vec<Amount> = Vec::new();
        let mut i: usize = 0;
        while i < self.entries.len()
            invariant
                0 <= i <= self.entries.len(),
                r@ == keys_of(self@).subrange(0, i as int),
            decreases self.entries.len() - i,
        {
            r.push(self.entries[i].0);
            i = i + 1;
            proof {
                assert(r@ =~= keys_of(self@).subrange(0, i as int));
            }
        }
        proof {
            assert(r@ =~= keys_of(self@));
        }
        r
    }

    /// The values, in ascending order of their tiers.
    pub fn values(&self) -> (r: Vec<&T>)
        ensures
            r@.len() == self@.len(),
            forall|i: int| 0 <= i < r@.len() ==> *r@[i] == self@[i].1,
    {
        let mut r: Vec<&T> = Vec::new();
        let mut i: usize = 0;
        while i < self.entries.len()
            invariant
                0 <= i <= self.entries.len(),
                r@.len() == i,
                forall|k: int| 0 <= k < i ==> *r@[k] == self@[k].1,
            decreases self.entries.len() - i,
        {
            r.push(&self.entries[i].1);
            i = i + 1;
        }
        r
    }

    /// Each tier with its value, ascending.
    pub fn iter(&self) -> (r: Vec<(Amount, &T)>)
        ensures
            r@.len() == self@.len(),
            forall|i: int| 0 <= i < r@.len() ==> r@[i].0 == self@[i].0 && *r@[i].1 == self@[i].1,
    {
        let mut r: Vec<(Amount, &T)> = Vec::new();
        let mut i: usize = 0;
        while i < self.entries.len()
            invariant
                0 <= i <= self.entries.len(),
                r@.len() == i,
                forall|k: int| 0 <= k < i ==> r@[k].0 == self@[k].0 && *r@[k].1 == self@[k].1,
            decreases self.entries.len() - i,
        {
            r.push((self.entries[i].0, &self.entries[i].1));
            i = i + 1;
        }
        r
    }

    pub fn get(&self, amt: Amount) -> (r: Option<&T>)
        requires
            self.wf(),
        ensures
            match r {
                Some(v) => exists|i: int|
                    0 <= i < self@.len() && self@[i].0 == amt && self@[i].1 == *v,
                None => !has_tier(self@, amt),
            },
    {
        match self.find(amt) {
            Some(i) => Some(&self.entries[i].1),
            None => None,
        }
    }

    /// Sets the value of tier `amt`, returning the value it replaced.
    pub fn insert(&mut self, amt: Amount, v: T) -> (r: Option<T>)
        requires
            old(self).wf(),
        ensures
            final(self).wf(),
            match r {
                Some(prev) => exists|i: int|
                    0 <= i < old(self)@.len() && old(self)@[i].0 == amt && old(self)@[i].1 == prev
                        && final(self)@ == old(self)@.update(i, (amt, v)),
                None => !has_tier(old(self)@, amt) && exists|i: int|
                    0 <= i <= old(self)@.len() && final(self)@ == old(self)@.insert(i, (amt, v)),
            },
    {
        let mut i: usize = 0;
        while i < self.entries.len() && self.entries[i].0.msats < amt.msats
            invariant
                self.wf(),
                0 <= i <= self.entries.len(),
                forall|k: int| 0 <= k < i ==> self@[k].0.msats < amt.msats,
            decreases self.entries.len() - i,
        {
            i = i + 1;
        }
        if i < self.entries.len() && self.entries[i].0.msats == amt.msats {
            let prev = self.entries.remove(i);
            self.entries.insert(i, (amt, v));
            proof {
                assert(self@ =~= old(self)@.update(i as int, (amt, v)));
            }
            Some(prev.1)
        } else {
            self.entries.insert(i, (amt, v));
            proof {
                assert forall|k: int| 0 <= k < old(self)@.len() implies old(self)@[k].0 != amt by {
                    if k >= i {
                        assert(old(self)@[i as int].0.msats > amt.msats);
                    }
                }
            }
            None
        }
    }

    /// A mutable reference to the value of tier `amt`, if present.
    pub fn get_mut(&mut self, amt: Amount) -> (r: Option<&mut T>)
        requires
            old(self).wf(),
        ensures
            match r {
                Some(v) => exists|i: int|
                    0 <= i < old(self)@.len() && old(self)@[i].0 == amt && old(self)@[i].1 == *v
                        && final(self)@ == old(self)@.update(i, (amt, *final(v))),
                None => !has_tier(old(self)@, amt) && final(self)@ == old(self)@,
            },
    {
        match self.find(amt) {
            Some(i) => Some(&mut self.entries[i].1),
            None => None,
        }
    }

    /// A mutable reference to the value of tier `amt`, which is first added
    /// with the default value if absent.
    pub fn get_mut_or_default(&mut self, amt: Amount) -> (r: &mut T)
        where
            T: Default,
        requires
            old(self).wf(),
        ensures
            final(self).wf(),
            has_tier(old(self)@, amt) ==> {
                let i = count_below(old(self)@, amt);
                &&& old(self)@[i].0 == amt
                &&& old(self)@[i].1 == *r
                &&& final(self)@ == old(self)@.update(i, (amt, *final(r)))
            },
            !has_tier(old(self)@, amt) ==> final(self)@ == old(self)@.insert(
                count_below(old(self)@, amt),
                (amt, *final(r)),
            ),
    {
        let mut i: usize = 0;
        while i < self.entries.len() && self.entries[i].0.msats < amt.msats
            invariant
                self.wf(),
                self@ == old(self)@,
                0 <= i <= self.entries.len(),
                forall|k: int| 0 <= k < i ==> self@[k].0.msats < amt.msats,
            decreases self.entries.len() - i,
        {
            i = i + 1;
        }
        proof {
            lemma_count_below(self@, amt, i as int);
            if has_tier(self@, amt) {
                let w = choose|w: int| 0 <= w < self@.len() && self@[w].0 == amt;
                if w != i {
                    assert(self@[i as int].0.msats > amt.msats || self@[w].0.msats > amt.msats);
                }
            }
        }
        if !(i < self.entries.len() && self.entries[i].0.msats == amt.msats) {
            self.entries.insert(i, (amt, T::default()));
            proof {
                assert forall|k: int| 0 <= k < old(self)@.len() implies old(self)@[k].0 != amt by {
                    if k >= i {
                        assert(old(self)@[i as int].0.msats > amt.msats);
                    }
                }
                assert forall|v: (Amount, T)| v.0 == amt implies #[trigger] self@.update(i as int, v)
                    == old(self)@.insert(i as int, v) by {
                    assert(old(self)@.insert(i as int, v) =~= self@.update(i as int, v));
                }
            }
        }
        &mut self.entries[i].1
    }

    /// The entries, ascending by tier.
    pub fn into_entries(self) -> (r: Vec<(Amount, T)>)
        ensures
            r@ == self@,
    {
        self.entries
    }
}

impl Tiered<()> {
    /// Generates the denominations `1, b, b², ...` msat of base `b` up to and
    /// including `max`.
    pub fn gen_denominations(denomination_base: u16, max: Amount) -> (r: Self)
        requires
            denomination_base >= 2,
        ensures
            r.wf(),
            forall|i: int| 0 <= i < r@.len() ==> r@[i].0.msats == pow(denomination_base as nat, i as nat),
            r@.len() > 0 ==> pow(denomination_base as nat, (r@.len() - 1) as nat) <= max.msats,
            pow(denomination_base as nat, r@.len() as nat) > max.msats,
    {
        let b = denomination_base as u64;
        let mut amounts: Vec<(Amount, ())> = Vec::new();
        let mut denomination: u64 = 1;
        let mut done = false;
        proof {
            assert(pow(b as nat, 0) == 1);
        }
        while !done && denomination <= max.msats
            invariant
                b >= 2,
                b == denomination_base,
                !done ==> denomination == pow(b as nat, amounts@.len() as nat),
                done ==> pow(b as nat, amounts@.len() as nat) > max.msats,
                amounts@.len() > 0 ==> pow(b as nat, (amounts@.len() - 1) as nat) <= max.msats,
                forall|i: int| 0 <= i < amounts@.len() ==> amounts@[i].0.msats == pow(b as nat, i as nat),
                forall|i: int, j: int|
                    0 <= i < j < amounts@.len() ==> #[trigger] pow(b as nat, i as nat) < #[trigger] pow(
                        b as nat,
                        j as nat,
                    ),
                amounts@.len() > 0 ==> forall|i: int| 0 <= i < amounts@.len() ==>
                    #[trigger] pow(b as nat, i as nat) <= pow(b as nat, (amounts@.len() - 1) as nat),
            decreases (if done { 0int } else { 1int }) + (u64::MAX - denomination),
        {
            let ghost n = amounts@.len();
            amounts.push((Amount::from_msats(denomination), ()));
            proof {
                lemma_pow_step(b as nat, n as nat);
                assert forall|i: int| 0 <= i < amounts@.len() implies
                    #[trigger] pow(b as nat, i as nat) <= pow(b as nat, n as nat) by {
                    if i < n {
                        lemma_pow_increasing(b as nat, i as nat, n as nat);
                    }
                }
                assert forall|i: int, j: int| 0 <= i < j < amounts@.len() implies
                    #[trigger] pow(b as nat, i as nat) < #[trigger] pow(b as nat, j as nat) by {
                    lemma_pow_increasing(b as nat, i as nat, j as nat);
                }
            }
            match denomination.checked_mul(b) {
                Some(d) => {
                    proof {
                        assert(d == (b as nat) * pow(b as nat, n as nat)) by (nonlinear_arith)
                            requires
                                d == denomination * b,
                                denomination == pow(b as nat, n as nat),
                        ;
                    }
                    denomination = d;
                },
                None => {
                    proof {
                        assert((b as nat) * pow(b as nat, n as nat) > max.msats) by (nonlinear_arith)
                            requires
                                denomination * b > u64::MAX,
                                denomination == pow(b as nat, n as nat),
                                max.msats <= u64::MAX,
                        ;
                    }
                    done = true;
                },
            }
        }
        let r = Tiered { entries: amounts };
        r
    }
}

/// `b^(k+1) == b * b^k`, and it exceeds `b^k` when `b >= 2`.
proof fn lemma_pow_step(b: nat, k: nat)
    requires
        b >= 2,
    ensures
        pow(b, k + 1) == b * pow(b, k),
        pow(b, k + 1) > pow(b, k),
        pow(b, k) >= 1,
    decreases k,
{
    if k > 0 {
        lemma_pow_step(b, (k - 1) as nat);
    }
    assert(pow(b, k + 1) == b * pow(b, k));
    assert(b * pow(b, k) > pow(b, k)) by (nonlinear_arith)
        requires
            b >= 2,
            pow(b, k) >= 1,
    ;
}

/// Powers of a base of at least two strictly increase.
proof fn lemma_pow_increasing(b: nat, i: nat, j: nat)
    requires
        b >= 2,
        i < j,
    ensures
        pow(b, i) < pow(b, j),
    decreases j - i,
{
    lemma_pow_step(b, i);
    if i + 1 < j {
        lemma_pow_increasing(b, i + 1, j);
    }
}

} // verus!
