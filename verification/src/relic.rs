//! Relics: lasting passive effects the player collects, at most one of each kind.

use crate::rng::random_below;
use vstd::prelude::*;
use vstd::string::*;

verus! {

/// Which relic.
#[derive(Debug, Clone, Copy, PartialEq, Eq, Structural, Hash)]
pub enum RelicId {
    /// Flying Sword Talisman: damage to every enemy as a battle starts.
    BurningBlood,
    /// Qiankun Bag: an extra card as a battle starts.
    BagOfPreparation,
    /// Wind-Calming Pearl: keep up to three cards at the end of a turn.
    Anchor,
    /// Spirit-Gathering Array: draw a card on every third card played.
    StrangeSpoon,
}

/// How rare a relic is.
#[derive(Debug, Clone, Copy, PartialEq, Eq, Structural)]
pub enum RelicRarity {
    Common,
    Uncommon,
    Rare,
    Special,
}

/// When and how a relic acts.
#[derive(Debug, Clone, Copy, PartialEq, Eq, Structural)]
pub enum RelicEffect {
    /// As a battle starts: damage, block, cards drawn.
    OnCombatStart { damage: i32, block: i32, draw_cards: i32 },
    /// As a turn starts: energy, cards drawn.
    OnTurnStart { energy: i32, draw_cards: i32 },
    /// As a turn ends: cards kept.
    OnTurnEnd { keep_cards: i32 },
    /// On drawing: extra cards.
    OnDraw { extra_cards: i32 },
    /// On dealing damage: extra damage.
    OnDealDamage { extra_damage: i32 },
    /// On taking damage: a reduction.
    OnTakeDamage { reduction: i32 },
    /// On every n-th card played: cards drawn.
    OnCardPlayed { every_nth: i32, draw_cards: i32 },
}

/// A relic.
#[derive(Debug)]
pub struct Relic {
    pub id: RelicId,
    pub name: String,
    pub description: String,
    pub rarity: RelicRarity,
    pub effect: RelicEffect,
}

impl Clone for Relic {
    fn clone(&self) -> (r: Self)
        ensures
            r == *self,
    {
        Relic {
            id: self.id,
            name: self.name.clone(),
            description: self.description.clone(),
            rarity: self.rarity,
            effect: self.effect,
        }
    }
}

/// A relic as a value.
pub struct RelicView {
    pub id: RelicId,
    pub name: Seq<char>,
    pub description: Seq<char>,
    pub rarity: RelicRarity,
    pub effect: RelicEffect,
}

impl View for Relic {
    type V = RelicView;

    open spec fn view(&self) -> RelicView {
        RelicView {
            id: self.id,
            name: self.name@,
            description: self.description@,
            rarity: self.rarity,
            effect: self.effect,
        }
    }
}

/// The relic of each kind.
pub open spec fn relic_of(id: RelicId) -> RelicView {
    match id {
        RelicId::BurningBlood => RelicView {
            id,
            name: "飞剑符"@,
            description: "每场战斗开始时，对所有敌人造成 3 点剑气伤害"@,
            rarity: RelicRarity::Common,
            effect: RelicEffect::OnCombatStart { damage: 3, block: 0, draw_cards: 0 },
        },
        RelicId::BagOfPreparation => RelicView {
            id,
            name: "乾坤袋"@,
            description: "每场战斗开始时，从乾坤袋中额外获得 1 张随机功法"@,
            rarity: RelicRarity::Common,
            effect: RelicEffect::OnCombatStart { damage: 0, block: 0, draw_cards: 1 },
        },
        RelicId::Anchor => RelicView {
            id,
            name: "定风珠"@,
            description: "每回合结束时，保留最多 3 张手牌到下回合"@,
            rarity: RelicRarity::Uncommon,
            effect: RelicEffect::OnTurnEnd { keep_cards: 3 },
        },
        RelicId::StrangeSpoon => RelicView {
            id,
            name: "聚灵阵"@,
            description: "每打出第 3 张牌时，灵气涌动，抽 1 张牌"@,
            rarity: RelicRarity::Rare,
            effect: RelicEffect::OnCardPlayed { every_nth: 3, draw_cards: 1 },
        },
    }
}

/// Every relic, in the order the game lists them.
pub open spec fn all_relic_ids() -> Seq<RelicId> {
    seq![RelicId::BurningBlood, RelicId::BagOfPreparation, RelicId::Anchor, RelicId::StrangeSpoon]
}

/// The relics listed under a rarity are exactly the relics of that rarity, each once, and the
/// full list holds every kind once: two common relics (the flying-sword talisman and the
/// bag), one uncommon (the anchor), one rare (the spoon) and no special one.
pub proof fn law_relic_rarities(id: RelicId, r: RelicRarity)
    ensures
        relic_of(id).id == id,
        ids_of_rarity(r).contains(id) <==> relic_of(id).rarity == r,
        all_relic_ids().contains(id),
        all_relic_ids().len() == 4,
        ids_of_rarity(r).no_duplicates(),
        all_relic_ids().no_duplicates(),
        relic_of(RelicId::StrangeSpoon).rarity == RelicRarity::Rare,
        ids_of_rarity(RelicRarity::Special).len() == 0,
{
    assert(ids_of_rarity(RelicRarity::Common)[0] == RelicId::BurningBlood);
    assert(ids_of_rarity(RelicRarity::Common)[1] == RelicId::BagOfPreparation);
    assert(ids_of_rarity(RelicRarity::Uncommon)[0] == RelicId::Anchor);
    assert(ids_of_rarity(RelicRarity::Rare)[0] == RelicId::StrangeSpoon);
    assert(all_relic_ids()[0] == RelicId::BurningBlood);
    assert(all_relic_ids()[1] == RelicId::BagOfPreparation);
    assert(all_relic_ids()[2] == RelicId::Anchor);
    assert(all_relic_ids()[3] == RelicId::StrangeSpoon);
}

/// The relics of a rarity, in that order.
pub open spec fn ids_of_rarity(r: RelicRarity) -> Seq<RelicId> {
    match r {
        RelicRarity::Common => seq![RelicId::BurningBlood, RelicId::BagOfPreparation],
        RelicRarity::Uncommon => seq![RelicId::Anchor],
        RelicRarity::Rare => seq![RelicId::StrangeSpoon],
        RelicRarity::Special => seq![],
    }
}

impl Relic {
    /// Flying Sword Talisman.
    pub fn burning_blood() -> (r: Self)
        ensures
            r@ == relic_of(RelicId::BurningBlood),
    {
        Relic {
            id: RelicId::BurningBlood,
            name: String::from_str("飞剑符"),
            description: String::from_str("每场战斗开始时，对所有敌人造成 3 点剑气伤害"),
            rarity: RelicRarity::Common,
            effect: RelicEffect::OnCombatStart { damage: 3, block: 0, draw_cards: 0 },
        }
    }

    /// Qiankun Bag.
    pub fn bag_of_preparation() -> (r: Self)
        ensures
            r@ == relic_of(RelicId::BagOfPreparation),
    {
        Relic {
            id: RelicId::BagOfPreparation,
            name: String::from_str("乾坤袋"),
            description: String::from_str("每场战斗开始时，从乾坤袋中额外获得 1 张随机功法"),
            rarity: RelicRarity::Common,
            effect: RelicEffect::OnCombatStart { damage: 0, block: 0, draw_cards: 1 },
        }
    }

    /// Wind-Calming Pearl.
    pub fn anchor() -> (r: Self)
        ensures
            r@ == relic_of(RelicId::Anchor),
    {
        Relic {
            id: RelicId::Anchor,
            name: String::from_str("定风珠"),
            description: String::from_str("每回合结束时，保留最多 3 张手牌到下回合"),
            rarity: RelicRarity::Uncommon,
            effect: RelicEffect::OnTurnEnd { keep_cards: 3 },
        }
    }

    /// Spirit-Gathering Array.
    pub fn strange_spoon() -> (r: Self)
        ensures
            r@ == relic_of(RelicId::StrangeSpoon),
    {
        Relic {
            id: RelicId::StrangeSpoon,
            name: String::from_str("聚灵阵"),
            description: String::from_str("每打出第 3 张牌时，灵气涌动，抽 1 张牌"),
            rarity: RelicRarity::Rare,
            effect: RelicEffect::OnCardPlayed { every_nth: 3, draw_cards: 1 },
        }
    }

    /// The relic of a kind.
    pub fn of_id(id: RelicId) -> (r: Self)
        ensures
            r@ == relic_of(id),
    {
        match id {
            RelicId::BurningBlood => Self::burning_blood(),
            RelicId::BagOfPreparation => Self::bag_of_preparation(),
            RelicId::Anchor => Self::anchor(),
            RelicId::StrangeSpoon => Self::strange_spoon(),
        }
    }

    /// The relic a draw from `0..4` gives, in the order the game lists them.
    pub fn for_draw(k: u64) -> (r: Self)
        requires
            k < 4,
        ensures
            r.id == all_relic_ids()[k as int],
            r@ == relic_of(r.id),
    {
        if k == 0 {
            Self::burning_blood()
        } else if k == 1 {
            Self::bag_of_preparation()
        } else if k == 2 {
            Self::anchor()
        } else {
            Self::strange_spoon()
        }
    }

    /// A relic of a kind drawn at random: the one `for_draw` gives for a draw from `0..4`.
    pub fn random() -> (r: Self)
        ensures
            exists|k: int| 0 <= k < 4 && r.id == #[trigger] all_relic_ids()[k],
            r@ == relic_of(r.id),
    {
        let k = random_below(4);
        Self::for_draw(k)
    }

    /// The relics of a rarity.
    pub fn by_rarity(rarity: RelicRarity) -> (r: Vec<Self>)
        ensures
            r@.len() == ids_of_rarity(rarity).len(),
            forall|i: int| 0 <= i < r@.len() ==> #[trigger] r@[i]@ == relic_of(ids_of_rarity(rarity)[i]),
    {
        match rarity {
            RelicRarity::Common => vec![Self::burning_blood(), Self::bag_of_preparation()],
            RelicRarity::Uncommon => vec![Self::anchor()],
            RelicRarity::Rare => vec![Self::strange_spoon()],
            RelicRarity::Special => Vec::new(),
        }
    }
}

/// The kinds of a sequence of relics.
pub open spec fn ids(s: Seq<Relic>) -> Seq<RelicId> {
    s.map_values(|r: Relic| r.id)
}

/// No kind occurs twice.
pub open spec fn ids_unique(s: Seq<Relic>) -> bool {
    forall|i: int, j: int| 0 <= i < j < s.len() ==> s[i].id != s[j].id
}

/// The relics the player owns.
#[derive(Debug)]
pub struct RelicCollection {
    /// The relics, in the order obtained.
    pub relic: Vec<Relic>,
}

impl Default for RelicCollection {
    fn default() -> (r: Self)
        ensures
            r.relic@.len() == 0,
    {
        RelicCollection { relic: Vec::new() }
    }
}

impl RelicCollection {
    /// Adds a relic unless one of its kind is already owned; says whether it was added.
    pub fn add_relic(&mut self, relic: Relic) -> (added: bool)
        ensures
            added == !ids(old(self).relic@).contains(relic.id),
            added ==> final(self).relic@ == old(self).relic@.push(relic),
            !added ==> final(self).relic@ == old(self).relic@,
            ids_unique(old(self).relic@) ==> ids_unique(final(self).relic@),
    {
        if self.has(relic.id) {
            return false;
        }
        proof {
            if ids_unique(self.relic@) {
                law_relics_stay_unique(self.relic@, relic);
            }
        }
        self.relic.push(relic);
        true
    }

    /// Whether a relic of the kind is owned.
    pub fn has(&self, id: RelicId) -> (r: bool)
        ensures
            r == ids(self.relic@).contains(id),
    {
        let mut i: usize = 0;
        while i < self.relic.len()
            invariant
                i <= self.relic@.len(),
                forall|j: int| 0 <= j < i ==> self.relic@[j].id != id,
            decreases self.relic@.len() - i,
        {
            if self.relic[i].id == id {
                assert(ids(self.relic@)[i as int] == id);
                return true;
            }
            i = i + 1;
        }
        assert(!ids(self.relic@).contains(id)) by {
            if ids(self.relic@).contains(id) {
                let k = choose|k: int| 0 <= k < ids(self.relic@).len() && ids(self.relic@)[k] == id;
                assert(self.relic@[k].id == id);
            }
        }
        false
    }

    /// The first owned relic of the kind, if any.
    pub fn get(&self, id: RelicId) -> (r: Option<&Relic>)
        ensures
            r is Some == ids(self.relic@).contains(id),
            r matches Some(x) ==> exists|k: int|
                0 <= k < self.relic@.len() && *x == self.relic@[k] && x.id == id
                    && forall|j: int| 0 <= j < k ==> #[trigger] self.relic@[j].id != id,
    {
        let mut i: usize = 0;
        while i < self.relic.len()
            invariant
                i <= self.relic@.len(),
                forall|j: int| 0 <= j < i ==> self.relic@[j].id != id,
            decreases self.relic@.len() - i,
        {
            if self.relic[i].id == id {
                assert(ids(self.relic@)[i as int] == id);
                return Some(&self.relic[i]);
            }
            i = i + 1;
        }
        assert(!ids(self.relic@).contains(id)) by {
            if ids(self.relic@).contains(id) {
                let k = choose|k: int| 0 <= k < ids(self.relic@).len() && ids(self.relic@)[k] == id;
                assert(self.relic@[k].id == id);
            }
        }
        None
    }

    /// The number of relics owned.
    pub fn count(&self) -> (r: usize)
        ensures
            r == self.relic@.len(),
    {
        self.relic.len()
    }

    /// Whether no relic is owned.
    pub fn is_empty(&self) -> (r: bool)
        ensures
            r == (self.relic@.len() == 0),
    {
        self.relic.len() == 0
    }
}

/// A relic was obtained.
#[derive(Debug)]
pub struct RelicObtainedEvent {
    pub relic: Relic,
}

/// A relic acted.
#[derive(Debug)]
pub struct RelicTriggeredEvent {
    pub relic_id: RelicId,
    pub effect: RelicEffect,
}

/// However relics are added, a collection never holds two of one kind: adding a relic of a
/// kind already owned leaves it as it was, and adding any other keeps every kind unique.
pub proof fn law_relics_stay_unique(s: Seq<Relic>, r: Relic)
    requires
        ids_unique(s),
        !ids(s).contains(r.id),
    ensures
        ids_unique(s.push(r)),
{
    assert forall|i: int, j: int| 0 <= i < j < s.push(r).len() implies s.push(r)[i].id != s.push(r)[j].id by {
        if j == s.len() {
            assert(ids(s)[i] == s[i].id);
        }
    }
}

} // verus!
