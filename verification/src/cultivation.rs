//! Cultivation realms: insight gathers until a breakthrough lifts the player a realm.

use vstd::prelude::*;

verus! {

/// A realm of cultivation, lowest first.
#[derive(Debug, Clone, Copy, PartialEq, Eq, Structural)]
pub enum Realm {
    /// Qi Refining.
    QiRefining,
    /// Foundation Establishment.
    FoundationEstablishment,
    /// Golden Core.
    GoldenCore,
    /// Nascent Soul, the highest.
    NascentSoul,
}

impl Default for Realm {
    fn default() -> (r: Self)
        ensures
            r == Realm::QiRefining,
    {
        Realm::QiRefining
    }
}

/// The insight a breakthrough out of a realm takes.
pub open spec fn threshold(r: Realm) -> u32 {
    match r {
        Realm::QiRefining => 40,
        Realm::FoundationEstablishment => 250,
        Realm::GoldenCore => 600,
        Realm::NascentSoul => 1500,
    }
}

/// The realm above, if any.
pub open spec fn next_realm(r: Realm) -> Option<Realm> {
    match r {
        Realm::QiRefining => Some(Realm::FoundationEstablishment),
        Realm::FoundationEstablishment => Some(Realm::GoldenCore),
        Realm::GoldenCore => Some(Realm::NascentSoul),
        Realm::NascentSoul => None,
    }
}

/// The rank of a realm, from 0 (lowest) to 3.
pub open spec fn rank(r: Realm) -> int {
    match r {
        Realm::QiRefining => 0,
        Realm::FoundationEstablishment => 1,
        Realm::GoldenCore => 2,
        Realm::NascentSoul => 3,
    }
}

/// The maximum-health bonus of a realm.
pub open spec fn hp_bonus(r: Realm) -> i32 {
    match r {
        Realm::QiRefining => 0,
        Realm::FoundationEstablishment => 50,
        Realm::GoldenCore => 150,
        Realm::NascentSoul => 300,
    }
}

/// The starting-energy bonus of a realm.
pub open spec fn energy_bonus(r: Realm) -> i32 {
    match r {
        Realm::QiRefining => 0,
        Realm::FoundationEstablishment => 1,
        Realm::GoldenCore => 2,
        Realm::NascentSoul => 3,
    }
}

/// The relic slots of a realm.
pub open spec fn relic_slots(r: Realm) -> usize {
    match r {
        Realm::QiRefining => 1,
        Realm::FoundationEstablishment => 2,
        Realm::GoldenCore => 3,
        Realm::NascentSoul => 5,
    }
}

/// The player's cultivation: a realm and the insight gathered toward the next.
#[derive(Debug, Clone, Copy, PartialEq, Eq, Structural)]
pub struct Cultivation {
    /// The current realm.
    pub realm: Realm,
    /// The insight gathered.
    pub insight: u32,
}

impl Cultivation {
    /// A beginner: Qi Refining, no insight.
    pub fn new() -> (r: Self)
        ensures
            r == (Cultivation { realm: Realm::QiRefining, insight: 0 }),
    {
        Cultivation { realm: Realm::QiRefining, insight: 0 }
    }

    /// Gathers insight.
    pub fn gain_insight(&mut self, amount: u32)
        requires
            old(self).insight + amount <= u32::MAX,
        ensures
            *final(self) == (Cultivation { insight: (old(self).insight + amount) as u32, ..*old(self) }),
    {
        self.insight = self.insight + amount;
    }

    /// The insight a breakthrough out of the current realm takes.
    pub fn get_threshold(&self) -> (r: u32)
        ensures
            r == threshold(self.realm),
    {
        match self.realm {
            Realm::QiRefining => 40,
            Realm::FoundationEstablishment => 250,
            Realm::GoldenCore => 600,
            Realm::NascentSoul => 1500,
        }
    }

    /// Whether enough insight has been gathered for a breakthrough.
    pub fn can_breakthrough(&self) -> (r: bool)
        ensures
            r == (self.insight >= threshold(self.realm)),
    {
        self.insight >= self.get_threshold()
    }

    /// Breaks through to the realm above, paying the threshold in insight; says whether it
    /// did. Nothing changes without enough insight or from the highest realm.
    pub fn breakthrough(&mut self) -> (r: bool)
        ensures
            r == (old(self).insight >= threshold(old(self).realm) && next_realm(old(self).realm) is Some),
            r ==> *final(self) == (Cultivation {
                realm: next_realm(old(self).realm)->0,
                insight: (old(self).insight - threshold(old(self).realm)) as u32,
            }),
            !r ==> *final(self) == *old(self),
    {
        if !self.can_breakthrough() {
            return false;
        }
        let next = match self.realm {
            Realm::QiRefining => Some(Realm::FoundationEstablishment),
            Realm::FoundationEstablishment => Some(Realm::GoldenCore),
            Realm::GoldenCore => Some(Realm::NascentSoul),
            Realm::NascentSoul => None,
        };
        match next {
            Some(new_realm) => {
                self.insight = self.insight - self.get_threshold();
                self.realm = new_realm;
                true
            },
            None => false,
        }
    }

    /// The maximum-health bonus of the current realm.
    pub fn get_hp_bonus(&self) -> (r: i32)
        ensures
            r == hp_bonus(self.realm),
    {
        match self.realm {
            Realm::QiRefining => 0,
            Realm::FoundationEstablishment => 50,
            Realm::GoldenCore => 150,
            Realm::NascentSoul => 300,
        }
    }

    /// The starting-energy bonus of the current realm.
    pub fn get_energy_bonus(&self) -> (r: i32)
        ensures
            r == energy_bonus(self.realm),
    {
        match self.realm {
            Realm::QiRefining => 0,
            Realm::FoundationEstablishment => 1,
            Realm::GoldenCore => 2,
            Realm::NascentSoul => 3,
        }
    }

    /// The relic slots of the current realm.
    pub fn get_relic_slots(&self) -> (r: usize)
        ensures
            r == relic_slots(self.realm),
    {
        match self.realm {
            Realm::QiRefining => 1,
            Realm::FoundationEstablishment => 2,
            Realm::GoldenCore => 3,
            Realm::NascentSoul => 5,
        }
    }
}

/// What each realm gives and asks. The energy bonus equals the realm's rank (0 to 3); the
/// maximum-health bonus is 0, 50, 150 and 300; the relic slots are 1, 2, 3 and 5; the insight
/// a breakthrough out of the realm takes is 40, 250, 600 and 1500. The realms follow one
/// another from Qi Refining up to Nascent Soul.
pub proof fn law_realm_tables(r: Realm)
    ensures
        energy_bonus(r) == rank(r),
        r == Realm::QiRefining ==> hp_bonus(r) == 0 && relic_slots(r) == 1 && threshold(r) == 40
            && next_realm(r) == Some(Realm::FoundationEstablishment),
        r == Realm::FoundationEstablishment ==> hp_bonus(r) == 50 && relic_slots(r) == 2 && threshold(r)
            == 250 && next_realm(r) == Some(Realm::GoldenCore),
        r == Realm::GoldenCore ==> hp_bonus(r) == 150 && relic_slots(r) == 3 && threshold(r) == 600
            && next_realm(r) == Some(Realm::NascentSoul),
        r == Realm::NascentSoul ==> hp_bonus(r) == 300 && relic_slots(r) == 5 && threshold(r) == 1500
            && next_realm(r) is None,
{
}

/// A breakthrough never lowers the realm, lifts it by exactly one rank when it succeeds, and
/// never spends more insight than was gathered; the bonuses of health, energy and relic slots
/// never shrink from a realm to the one above.
pub proof fn law_breakthrough_monotone(c: Cultivation)
    ensures
        next_realm(c.realm) matches Some(n) ==> {
            &&& rank(n) == rank(c.realm) + 1
            &&& hp_bonus(n) >= hp_bonus(c.realm)
            &&& energy_bonus(n) >= energy_bonus(c.realm)
            &&& relic_slots(n) >= relic_slots(c.realm)
            &&& threshold(n) > threshold(c.realm)
        },
        next_realm(c.realm) is None <==> c.realm == Realm::NascentSoul,
{
}

} // verus!
