//! Validators and the validator set of a height.

use vstd::prelude::*;
use crate::types::Address;

verus! {

/// A validator: an address with its voting power.
#[derive(Clone, Copy, Debug, PartialEq, Eq, Structural, Hash)]
pub struct Validator {
    pub address: Address,
    pub voting_power: u64,
}

impl Validator {
    pub fn new(address: Address, voting_power: u64) -> (v: Validator)
        ensures
            v == (Validator { address, voting_power }),
    {
        Validator { address, voting_power }
    }
}

/// The sum of the voting powers of a sequence of validators.
pub open spec fn total_power(validators: Seq<Validator>) -> nat
    decreases validators.len(),
{
    if validators.len() == 0 {
        0
    } else {
        total_power(validators.drop_last()) + validators.last().voting_power as nat
    }
}

/// Whether no address occurs twice among the validators.
pub open spec fn distinct_addresses(validators: Seq<Validator>) -> bool {
    forall|i: int, j: int|
        0 <= i < j < validators.len() ==> (#[trigger] validators[i]).address != (#[trigger] validators[j]).address
}

/// Whether some validator has the address.
pub open spec fn has_address(validators: Seq<Validator>, address: Address) -> bool {
    exists|i: int| 0 <= i < validators.len() && (#[trigger] validators[i]).address == address
}

/// The first validator with the address, if there is one.
pub open spec fn find_validator(validators: Seq<Validator>, address: Address) -> Option<Validator>
    decreases validators.len(),
{
    if validators.len() == 0 {
        None
    } else if validators[0].address == address {
        Some(validators[0])
    } else {
        find_validator(validators.drop_first(), address)
    }
}

/// Whether the validators can form a validator set: their addresses are
/// distinct and their total voting power is within the machine's range.
pub open spec fn valid_validators(validators: Seq<Validator>) -> bool {
    distinct_addresses(validators) && total_power(validators) <= u64::MAX
}

/// `find_validator` finds a validator exactly where one has the address,
/// and what it finds is a member with that address.
pub proof fn lemma_find_validator(validators: Seq<Validator>, address: Address)
    ensures
        find_validator(validators, address) is Some <==> has_address(validators, address),
        find_validator(validators, address) is Some ==> {
            let v = find_validator(validators, address)->0;
            v.address == address && validators.contains(v)
        },
    decreases validators.len(),
{
    if validators.len() == 0 {
    } else if validators[0].address == address {
        assert(validators[0].address == address);
    } else {
        let rest = validators.drop_first();
        lemma_find_validator(rest, address);
        if has_address(rest, address) {
            let i = choose|i: int| 0 <= i < rest.len() && (#[trigger] rest[i]).address == address;
            assert(validators[i + 1] == rest[i]);
            let v = find_validator(rest, address)->0;
            let k = choose|k: int| 0 <= k < rest.len() && rest[k] == v;
            assert(validators[k + 1] == v);
        }
        if has_address(validators, address) {
            let i = choose|i: int| 0 <= i < validators.len() && (#[trigger] validators[i]).address == address;
            assert(rest[i - 1] == validators[i]);
        }
    }
}

/// The total voting power of a prefix is at most that of the whole.
pub proof fn lemma_total_power_prefix(validators: Seq<Validator>, n: int)
    requires
        0 <= n <= validators.len(),
    ensures
        total_power(validators.take(n)) <= total_power(validators),
    decreases validators.len() - n,
{
    if n == validators.len() {
        assert(validators.take(n) =~= validators);
    } else {
        lemma_total_power_prefix(validators, n + 1);
        assert(validators.take(n + 1).drop_last() =~= validators.take(n));
    }
}

/// The validators of a height, in the order in which they were given.
#[derive(Debug)]
pub struct ValidatorSet {
    validators: Vec<Validator>,
    total: u64,
}

impl View for ValidatorSet {
    type V = Seq<Validator>;

    closed spec fn view(&self) -> Seq<Validator> {
        self.validators@
    }
}

impl Clone for ValidatorSet {
    fn clone(&self) -> (r: ValidatorSet)
        ensures
            r@ == self@,
    {
        proof {
            use_type_invariant(self);
        }
        let mut validators: Vec<Validator> = Vec::new();
        let mut i: usize = 0;
        while i < self.validators.len()
            invariant
                0 <= i <= self.validators.len(),
                validators@ == self.validators@.take(i as int),
            decreases self.validators.len() - i,
        {
            validators.push(self.validators[i]);
            proof {
                assert(validators@ =~= self.validators@.take(i + 1));
            }
            i += 1;
        }
        proof {
            assert(validators@ =~= self.validators@);
        }
        ValidatorSet { validators, total: self.total }
    }
}

impl ValidatorSet {
    /// Every validator set has distinct addresses and a total voting power
    /// within the machine's range.
    #[verifier::type_invariant]
    pub closed spec fn wf(&self) -> bool {
        valid_validators(self.validators@) && self.total as nat == total_power(self.validators@)
    }

    /// The set of the given validators, in the order given. There is none
    /// where an address occurs twice or the total voting power overflows.
    pub fn new(validators: Vec<Validator>) -> (r: Option<ValidatorSet>)
        ensures
            r is Some <==> valid_validators(validators@),
            r is Some ==> r->0@ == validators@,
    {
        let mut total: u64 = 0;
        let mut i: usize = 0;
        while i < validators.len()
            invariant
                0 <= i <= validators.len(),
                total as nat == total_power(validators@.take(i as int)),
                distinct_addresses(validators@.take(i as int)),
            decreases validators.len() - i,
        {
            let v = validators[i];
            let mut j: usize = 0;
            while j < i
                invariant
                    0 <= j <= i < validators.len(),
                    v == validators@[i as int],
                    forall|k: int| 0 <= k < j ==> (#[trigger] validators@[k]).address != v.address,
                decreases i - j,
            {
                if validators[j].address == v.address {
                    return None;
                }
                j += 1;
            }
            proof {
                assert(validators@.take(i + 1).drop_last() =~= validators@.take(i as int));
                lemma_total_power_prefix(validators@, i + 1);
            }
            match total.checked_add(v.voting_power) {
                Some(sum) => {
                    total = sum;
                },
                None => {
                    return None;
                },
            }
            i += 1;
        }
        proof {
            assert(validators@.take(i as int) =~= validators@);
        }
        Some(ValidatorSet { validators, total })
    }

    /// The number of validators.
    pub fn count(&self) -> (n: usize)
        ensures
            n == self@.len(),
    {
        self.validators.len()
    }

    /// The total voting power of the set.
    pub fn total_voting_power(&self) -> (total: u64)
        ensures
            total as nat == total_power(self@),
            valid_validators(self@),
    {
        proof {
            use_type_invariant(self);
        }
        self.total
    }

    /// The validator with the address, if it is in the set.
    pub fn get_by_address(&self, address: &Address) -> (r: Option<Validator>)
        ensures
            r == find_validator(self@, *address),
    {
        let mut i: usize = 0;
        proof {
            assert(self.validators@.skip(0) =~= self.validators@);
        }
        while i < self.validators.len()
            invariant
                0 <= i <= self.validators.len(),
                find_validator(self.validators@, *address) == find_validator(self.validators@.skip(i as int), *address),
            decreases self.validators.len() - i,
        {
            if self.validators[i].address == *address {
                return Some(self.validators[i]);
            }
            proof {
                assert(self.validators@.skip(i as int).drop_first() =~= self.validators@.skip(i + 1));
            }
            i += 1;
        }
        None
    }

    /// The validator at a position within the set.
    pub fn get(&self, index: usize) -> (v: Validator)
        requires
            index < self@.len(),
        ensures
            v == self@[index as int],
    {
        self.validators[index]
    }

    /// The validator at the position, counted from zero in the order given.
    pub fn get_by_index(&self, index: usize) -> (r: Option<Validator>)
        ensures
            r == (if index < self@.len() { Some(self@[index as int]) } else { None }),
    {
        if index < self.validators.len() {
            Some(self.validators[index])
        } else {
            None
        }
    }
}

} // verus!
