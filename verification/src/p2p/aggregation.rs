//! What a round of asking peers has brought so far.

use crate::solana::confirm::Signature;
use crate::solana::pubkey::Pubkey;
use vstd::prelude::*;

verus! {

/// What asking one peer came to.
#[derive(Debug, PartialEq, Eq)]
pub enum PeerOutcome {
    Signed(Signature),
    /// The peer disagreed about what should be signed. A retry will get the
    /// same answer.
    Refused(String),
    /// The peer could not be reached, or answered wrongly.
    Unavailable(String),
}

/// The outcomes of one collection round.
#[derive(Debug, PartialEq, Eq)]
pub struct Round {
    pub signatures: Vec<(Pubkey, Signature)>,
    pub refused: Vec<(Pubkey, String)>,
    pub unavailable: Vec<(Pubkey, String)>,
}

/// How many different keys a list holds.
pub open spec fn distinct(keys: Seq<Seq<u8>>) -> nat
    decreases keys.len(),
{
    if keys.len() == 0 {
        0
    } else {
        distinct(keys.drop_last()) + if keys.drop_last().contains(keys.last()) {
            0nat
        } else {
            1nat
        }
    }
}

/// A round as three lists, in the order in which outcomes were recorded.
pub struct Outcomes {
    pub signed: Seq<(Seq<u8>, Signature)>,
    pub refused: Seq<(Seq<u8>, Seq<char>)>,
    pub unavailable: Seq<(Seq<u8>, Seq<char>)>,
}

impl View for Round {
    type V = Outcomes;

    open spec fn view(&self) -> Outcomes {
        Outcomes {
            signed: self.signatures@.map_values(|s: (Pubkey, Signature)| (s.0@, s.1)),
            refused: self.refused@.map_values(|s: (Pubkey, String)| (s.0@, s.1@)),
            unavailable: self.unavailable@.map_values(|s: (Pubkey, String)| (s.0@, s.1@)),
        }
    }
}

impl Outcomes {
    /// The keys that signed.
    pub open spec fn signers(self) -> Seq<Seq<u8>> {
        self.signed.map_values(|s: (Seq<u8>, Signature)| s.0)
    }

    /// With one more outcome.
    pub open spec fn with(self, key: Seq<u8>, outcome: PeerOutcome) -> Outcomes {
        match outcome {
            PeerOutcome::Signed(signature) => Outcomes {
                signed: self.signed.push((key, signature)),
                ..self
            },
            PeerOutcome::Refused(why) => Outcomes {
                refused: self.refused.push((key, why@)),
                ..self
            },
            PeerOutcome::Unavailable(why) => Outcomes {
                unavailable: self.unavailable.push((key, why@)),
                ..self
            },
        }
    }

    /// With a key that could not be asked.
    pub open spec fn with_unavailable(self, key: Seq<u8>, why: Seq<char>) -> Outcomes {
        Outcomes { unavailable: self.unavailable.push((key, why)), ..self }
    }
}

impl Round {
    /// A round in which nobody has been asked.
    pub fn new() -> (round: Self)
        ensures
            round@ == (Outcomes {
                signed: Seq::empty(),
                refused: Seq::empty(),
                unavailable: Seq::empty(),
            }),
    {
        let round: Round = Round {
            signatures: Vec::new(),
            refused: Vec::new(),
            unavailable: Vec::new(),
        };
        assert(round@.signed =~= Seq::empty());
        assert(round@.refused =~= Seq::empty());
        assert(round@.unavailable =~= Seq::empty());
        round
    }

    /// Adds what asking one peer came to.
    pub fn record(&mut self, key: Pubkey, outcome: PeerOutcome)
        ensures
            final(self)@ == old(self)@.with(key@, outcome),
    {
        match outcome {
            PeerOutcome::Signed(signature) => self.signatures.push((key, signature)),
            PeerOutcome::Refused(why) => self.refused.push((key, why)),
            PeerOutcome::Unavailable(why) => self.unavailable.push((key, why)),
        }
        assert(self@.signed =~= old(self)@.with(key@, outcome).signed);
        assert(self@.refused =~= old(self)@.with(key@, outcome).refused);
        assert(self@.unavailable =~= old(self)@.with(key@, outcome).unavailable);
    }

    /// How many different peers have signed.
    pub fn unique_signers(&self) -> (n: usize)
        ensures
            n == distinct(self@.signers()),
    {
        let ghost keys = self@.signers();
        let mut n: usize = 0;
        let mut i: usize = 0;
        assert(keys.take(0) =~= Seq::empty());
        while i < self.signatures.len()
            invariant
                keys == self@.signers(),
                i <= self.signatures@.len(),
                n <= i,
                n == distinct(keys.take(i as int)),
            decreases self.signatures@.len() - i,
        {
            let ghost seen = keys.take(i as int);
            let mut j: usize = 0;
            let mut again: bool = false;
            while j < i
                invariant
                    keys == self@.signers(),
                    seen == keys.take(i as int),
                    j <= i < self.signatures@.len(),
                    again == exists|k: int| 0 <= k < j && keys[k] == keys[i as int],
                decreases i - j,
            {
                if self.signatures[j].0.same_as(&self.signatures[i].0) {
                    assert(keys[j as int] == keys[i as int]);
                    again = true;
                }
                j = j + 1;
            }
            proof {
                let more = keys.take(i + 1);
                assert(more.drop_last() =~= seen);
                assert(more.last() == keys[i as int]);
                if again {
                    let k = choose|k: int| 0 <= k < i && keys[k] == keys[i as int];
                    assert(seen[k] == keys[i as int]);
                    assert(seen.contains(keys[i as int]));
                } else if seen.contains(keys[i as int]) {
                    let k = choose|k: int| 0 <= k < seen.len() && seen[k] == keys[i as int];
                    assert(keys[k] == keys[i as int]);
                }
            }
            if !again {
                n = n + 1;
            }
            i = i + 1;
        }
        assert(keys.take(keys.len() as int) =~= keys);
        n
    }

    /// Whether enough different peers have signed.
    pub fn reached(&self, threshold: usize) -> (done: bool)
        ensures
            done == (distinct(self@.signers()) >= threshold),
    {
        self.unique_signers() >= threshold
    }

    /// Whether asking again could bring enough signatures together: those that
    /// could not be reached may come back, while a refusal stays one.
    pub fn retry_could_help(&self, threshold: usize) -> (could: bool)
        ensures
            could == (distinct(self@.signers()) + self@.unavailable.len() >= threshold),
    {
        self.unique_signers() as u128 + self.unavailable.len() as u128 >= threshold as u128
    }
}

/// The keys from place `start` on, then those before it.
pub open spec fn rotated(keys: Seq<Pubkey>, start: int) -> Seq<Pubkey> {
    keys.skip(start) + keys.take(start)
}

/// The order in which peers are asked: as configured, from a place that the
/// seed picks, so that different rounds do not all lean on the same peer.
pub fn ask_order(identities: &[Pubkey], seed: u64) -> (order: Vec<Pubkey>)
    ensures
        order@ == if identities@.len() == 0 {
            Seq::empty()
        } else {
            rotated(identities@, (seed as int) % (identities@.len() as int))
        },
{
    let mut order: Vec<Pubkey> = Vec::new();
    let n: usize = identities.len();
    if n == 0 {
        return order;
    }
    let start: usize = (seed % n as u64) as usize;
    let ghost whole = rotated(identities@, start as int);
    let mut i: usize = start;
    while i < n
        invariant
            start <= i <= n == identities@.len(),
            whole == rotated(identities@, start as int),
            order@ == whole.take(i - start),
        decreases n - i,
    {
        order.push(identities[i]);
        i = i + 1;
        assert(order@ =~= whole.take(i - start));
    }
    let mut j: usize = 0;
    while j < start
        invariant
            j <= start < n == identities@.len(),
            whole == rotated(identities@, start as int),
            order@ == whole.take(n - start + j),
        decreases start - j,
    {
        order.push(identities[j]);
        j = j + 1;
        assert(order@ =~= whole.take(n - start + j));
    }
    assert(whole.take(n as int) =~= whole);
    order
}

/// Everyone is in the order: as often as configured.
pub proof fn the_order_asks_everyone_once(keys: Seq<Pubkey>, start: int)
    requires
        0 <= start <= keys.len(),
    ensures
        rotated(keys, start).to_multiset() == keys.to_multiset(),
{
    vstd::seq_lib::lemma_multiset_commutative(keys.skip(start), keys.take(start));
    vstd::seq_lib::lemma_multiset_commutative(keys.take(start), keys.skip(start));
    assert(keys.take(start) + keys.skip(start) =~= keys);
    assert(rotated(keys, start).to_multiset() =~= keys.to_multiset());
}

/// Of the keys in a list each counts once, however often it is there.
pub proof fn every_signer_counts_once(keys: Seq<Seq<u8>>)
    ensures
        keys.to_set().finite(),
        distinct(keys) == keys.to_set().len(),
        distinct(keys) <= keys.len(),
    decreases keys.len(),
{
    if keys.len() == 0 {
        assert(keys.to_set() =~= Set::empty());
    } else {
        let rest = keys.drop_last();
        every_signer_counts_once(rest);
        assert(keys.to_set() =~= rest.to_set().insert(keys.last())) by {
            assert forall|k: Seq<u8>| keys.to_set().contains(k) implies rest.to_set().insert(
                keys.last(),
            ).contains(k) by {
                let i = choose|i: int| 0 <= i < keys.len() && keys[i] == k;
                if i < rest.len() {
                    assert(rest[i] == k);
                }
            }
            assert forall|k: Seq<u8>| rest.to_set().insert(keys.last()).contains(k) implies
                keys.to_set().contains(k) by {
                if rest.contains(k) {
                    let i = choose|i: int| 0 <= i < rest.len() && rest[i] == k;
                    assert(keys[i] == k);
                } else {
                    assert(keys[keys.len() - 1] == k);
                }
            }
        }
    }
}

/// An outcome is recorded as what it is, under the peer's own key, and takes
/// nothing away that was recorded before.
pub proof fn an_outcome_is_recorded_as_what_it_is(
    round: Outcomes,
    key: Seq<u8>,
    signature: Signature,
    why: String,
)
    ensures
        round.with(key, PeerOutcome::Signed(signature)).signed == round.signed.push(
            (key, signature),
        ),
        round.with(key, PeerOutcome::Signed(signature)).refused == round.refused,
        round.with(key, PeerOutcome::Signed(signature)).unavailable == round.unavailable,
        round.with(key, PeerOutcome::Signed(signature)).signers() == round.signers().push(key),
        round.with(key, PeerOutcome::Refused(why)).refused == round.refused.push((key, why@)),
        round.with(key, PeerOutcome::Refused(why)).signed == round.signed,
        round.with(key, PeerOutcome::Refused(why)).unavailable == round.unavailable,
        round.with(key, PeerOutcome::Unavailable(why)).unavailable == round.unavailable.push(
            (key, why@),
        ),
        round.with(key, PeerOutcome::Unavailable(why)).signed == round.signed,
        round.with(key, PeerOutcome::Unavailable(why)).refused == round.refused,
        round.with_unavailable(key, why@) == round.with(key, PeerOutcome::Unavailable(why)),
{
    assert(round.with(key, PeerOutcome::Signed(signature)).signers() =~= round.signers().push(key));
}

/// The order is the configured one, begun at another place: who comes after
/// whom in the configuration also does in the order, round the end.
pub proof fn the_order_is_the_configured_one_begun_elsewhere(
    keys: Seq<Pubkey>,
    start: int,
    i: int,
)
    requires
        0 <= start < keys.len(),
        0 <= i < keys.len(),
    ensures
        rotated(keys, start).len() == keys.len(),
        rotated(keys, start)[i] == keys[(start + i) % (keys.len() as int)],
{
    if start + i < keys.len() {
        vstd::arithmetic::div_mod::lemma_small_mod((start + i) as nat, keys.len());
    } else {
        vstd::arithmetic::div_mod::lemma_mod_add_multiples_vanish(
            start + i - keys.len(),
            keys.len() as int,
        );
        vstd::arithmetic::div_mod::lemma_small_mod((start + i - keys.len()) as nat, keys.len());
    }
}

/// A round has reached its threshold exactly where that many different peers
/// have signed. Asking again could help exactly where those that were not
/// reached could make up for the rest.
pub proof fn a_threshold_is_reached_by_different_signers(
    round: Round,
    threshold: usize,
    done: bool,
    could: bool,
)
    requires
        call_ensures(Round::reached, (&round, threshold), done),
        call_ensures(Round::retry_could_help, (&round, threshold), could),
    ensures
        done <==> round@.signers().to_set().len() >= threshold,
        could <==> round@.signers().to_set().len() + round@.unavailable.len() >= threshold,
        done ==> could,
{
    every_signer_counts_once(round@.signers());
}

} // verus!
