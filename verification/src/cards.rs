//! Cards, the piles they move between, and the pool that rewards are drawn from.

use crate::rng::{choose_one, choose_several, random_below, shuffle_in_place, taken_at_distinct_positions};
use vstd::prelude::*;
use vstd::string::*;

verus! {

/// The kind of a card.
#[derive(Debug, Clone, Copy, PartialEq, Eq, Structural)]
pub enum CardType {
    /// An attack.
    Attack,
    /// A defence.
    Defense,
    /// A skill.
    Skill,
    /// A lasting power.
    Power,
}

/// What playing a card does.
#[derive(Debug, Clone, Copy, PartialEq, Eq, Structural)]
pub enum CardEffect {
    /// Deals damage to one enemy.
    DealDamage { amount: i32 },
    /// Gives the player block.
    GainBlock { amount: i32 },
    /// Heals the player.
    Heal { amount: i32 },
    /// Draws cards.
    DrawCards { amount: i32 },
    /// Gives the player energy.
    GainEnergy { amount: i32 },
    /// Deals damage, then draws cards.
    AttackAndDraw { damage: i32, cards: i32 },
    /// Deals damage several times.
    MultiAttack { damage: i32, times: i32 },
}

/// How rare a card is.
#[derive(Debug, Clone, Copy, PartialEq, Eq, Structural)]
pub enum CardRarity {
    /// Common.
    Common,
    /// Uncommon.
    Uncommon,
    /// Rare.
    Rare,
    /// Special.
    Special,
}

/// The display name of a rarity.
pub open spec fn rarity_name(r: CardRarity) -> Seq<char> {
    match r {
        CardRarity::Common => "凡阶"@,
        CardRarity::Uncommon => "玄阶"@,
        CardRarity::Rare => "地阶"@,
        CardRarity::Special => "天阶"@,
    }
}

impl CardRarity {
    /// The display name of the rarity.
    pub fn get_chinese_name(&self) -> (r: &'static str)
        ensures
            r@ == rarity_name(*self),
    {
        match self {
            CardRarity::Common => "凡阶",
            CardRarity::Uncommon => "玄阶",
            CardRarity::Rare => "地阶",
            CardRarity::Special => "天阶",
        }
    }
}

/// A card.
#[derive(Debug)]
pub struct Card {
    /// Identifier.
    pub id: u32,
    /// Name.
    pub name: String,
    /// Description.
    pub description: String,
    /// Kind.
    pub card_type: CardType,
    /// Energy cost.
    pub cost: i32,
    /// Effect when played.
    pub effect: CardEffect,
    /// Rarity.
    pub rarity: CardRarity,
}

/// A card as a value: its strings as sequences of characters.
pub struct CardView {
    pub id: u32,
    pub name: Seq<char>,
    pub description: Seq<char>,
    pub card_type: CardType,
    pub cost: i32,
    pub effect: CardEffect,
    pub rarity: CardRarity,
}

impl View for Card {
    type V = CardView;

    open spec fn view(&self) -> CardView {
        CardView {
            id: self.id,
            name: self.name@,
            description: self.description@,
            card_type: self.card_type,
            cost: self.cost,
            effect: self.effect,
            rarity: self.rarity,
        }
    }
}

impl Clone for Card {
    fn clone(&self) -> (r: Self)
        ensures
            r == *self,
    {
        Card {
            id: self.id,
            name: self.name.clone(),
            description: self.description.clone(),
            card_type: self.card_type,
            cost: self.cost,
            effect: self.effect,
            rarity: self.rarity,
        }
    }
}

/// The views of a sequence of cards.
pub open spec fn views(cards: Seq<Card>) -> Seq<CardView> {
    cards.map_values(|c: Card| c@)
}

/// The card view with the given fields.
pub open spec fn card_view(
    id: u32,
    name: Seq<char>,
    description: Seq<char>,
    card_type: CardType,
    cost: i32,
    effect: CardEffect,
    rarity: CardRarity,
) -> CardView {
    CardView { id, name, description, card_type, cost, effect, rarity }
}

impl Card {
    /// Makes a card from its fields.
    pub fn new(
        id: u32,
        name: &str,
        description: &str,
        card_type: CardType,
        cost: i32,
        effect: CardEffect,
        rarity: CardRarity,
    ) -> (r: Self)
        ensures
            r@ == card_view(id, name@, description@, card_type, cost, effect, rarity),
    {
        Card {
            id,
            name: String::from_str(name),
            description: String::from_str(description),
            card_type,
            cost,
            effect,
            rarity,
        }
    }
}

// ============================================================================
// Piles
// ============================================================================

/// The draw pile: cards are drawn from the front.
#[derive(Debug)]
pub struct DrawPile {
    /// The cards, the next one to draw first.
    pub cards: Vec<Card>,
    /// The number of cards left, as shown to the player.
    pub count: usize,
}

impl DrawPile {
    /// The count agrees with the cards.
    pub open spec fn wf(&self) -> bool {
        self.count == self.cards@.len()
    }

    /// Makes a draw pile of the given cards.
    pub fn new(cards: Vec<Card>) -> (r: Self)
        ensures
            r.cards@ == cards@,
            r.count == cards@.len(),
            r.wf(),
    {
        let count = cards.len();
        DrawPile { cards, count }
    }

    /// Draws the card at the front, if there is one.
    pub fn draw_card(&mut self) -> (r: Option<Card>)
        requires
            old(self).cards@.len() > 0 ==> old(self).count > 0,
        ensures
            old(self).cards@.len() == 0 ==> r is None && *final(self) == *old(self),
            old(self).cards@.len() > 0 ==> {
                &&& r == Some(old(self).cards@[0])
                &&& final(self).cards@ == old(self).cards@.drop_first()
                &&& final(self).count == old(self).count - 1
            },
    {
        if self.cards.len() == 0 {
            None
        } else {
            self.count = self.count - 1;
            Some(self.cards.remove(0))
        }
    }

    /// Shuffles the discarded cards and puts them under the draw pile.
    pub fn shuffle_from_discard(&mut self, discard_cards: Vec<Card>)
        ensures
            final(self).cards@.len() == old(self).cards@.len() + discard_cards@.len(),
            final(self).cards@.subrange(0, old(self).cards@.len() as int) == old(self).cards@,
            final(self).cards@.subrange(
                old(self).cards@.len() as int,
                final(self).cards@.len() as int,
            ).to_multiset() == discard_cards@.to_multiset(),
            final(self).count == final(self).cards@.len(),
    {
        let ghost initial = discard_cards@;
        let mut discard_cards = discard_cards;
        shuffle_in_place(&mut discard_cards);
        let ghost shuffled = discard_cards@;
        let ghost before = self.cards@;
        assert(shuffled.len() == initial.len()) by {
            broadcast use vstd::seq_lib::group_to_multiset_ensures;
            assert(shuffled.to_multiset().len() == initial.to_multiset().len());
        }
        self.cards.append(&mut discard_cards);
        assert(self.cards@.subrange(0, before.len() as int) =~= before);
        assert(self.cards@.subrange(before.len() as int, self.cards@.len() as int) =~= shuffled);
        self.count = self.cards.len();
    }
}

/// The discard pile: played and discarded cards go on top.
#[derive(Debug)]
pub struct DiscardPile {
    /// The cards, in the order they were added.
    pub cards: Vec<Card>,
    /// The number of cards, as shown to the player.
    pub count: usize,
}

impl DiscardPile {
    /// The count agrees with the cards.
    pub open spec fn wf(&self) -> bool {
        self.count == self.cards@.len()
    }

    /// Makes an empty discard pile.
    pub fn new() -> (r: Self)
        ensures
            r.cards@.len() == 0,
            r.count == 0,
            r.wf(),
    {
        DiscardPile { cards: Vec::new(), count: 0 }
    }

    /// Adds a card on top.
    pub fn add_card(&mut self, card: Card)
        requires
            old(self).count < usize::MAX,
        ensures
            final(self).cards@ == old(self).cards@.push(card),
            final(self).count == old(self).count + 1,
    {
        self.cards.push(card);
        self.count = self.count + 1;
    }

    /// Empties the pile and hands back its cards, in order.
    pub fn clear(&mut self) -> (r: Vec<Card>)
        ensures
            r@ == old(self).cards@,
            final(self).cards@.len() == 0,
            final(self).count == 0,
    {
        let cards = self.cards.clone();
        assert(cards@ =~= self.cards@);
        self.cards.clear();
        self.count = 0;
        cards
    }
}

/// The cards and count of a discard pile made by `DiscardPile::new` after `add_card` of
/// each card of `cs` in turn, as those functions state it.
pub open spec fn pile_after_adds(cs: Seq<Card>) -> (Seq<Card>, int)
    decreases cs.len(),
{
    if cs.len() == 0 {
        (Seq::empty(), 0)
    } else {
        let before = pile_after_adds(cs.drop_last());
        (before.0.push(cs.last()), before.1 + 1)
    }
}

/// What `DiscardPile::clear` hands back from a pile with these cards and count, and the
/// cards and count it leaves, as that function states it.
pub open spec fn pile_cleared(pile: (Seq<Card>, int)) -> (Seq<Card>, (Seq<Card>, int)) {
    (pile.0, (Seq::empty(), 0))
}

/// A new discard pile that has had the cards `cs` added one by one holds exactly `cs`, in
/// the order they were added, and counts `cs.len()` of them; `clear` then hands back `cs`
/// and leaves the pile empty with count 0, and a second `clear` hands back nothing.
pub proof fn law_discard_pile_keeps_order(cs: Seq<Card>)
    ensures
        pile_after_adds(cs) == (cs, cs.len() as int),
        pile_cleared(pile_after_adds(cs)).0 == cs,
        pile_cleared(pile_after_adds(cs)).1 == (Seq::<Card>::empty(), 0int),
        pile_cleared(pile_cleared(pile_after_adds(cs)).1).0.len() == 0,
    decreases cs.len(),
{
    if cs.len() > 0 {
        law_discard_pile_keeps_order(cs.drop_last());
        assert(cs.drop_last().push(cs.last()) =~= cs);
    }
}

/// The cards in the player's hand.
#[derive(Debug)]
pub struct Hand {
    /// The cards, from left to right.
    pub cards: Vec<Card>,
    /// The most cards the hand holds.
    pub max_size: usize,
}

impl Hand {
    /// Makes an empty hand that holds at most `max_size` cards.
    pub fn new(max_size: usize) -> (r: Self)
        ensures
            r.cards@.len() == 0,
            r.max_size == max_size,
    {
        Hand { cards: Vec::new(), max_size }
    }

    /// Adds a card on the right if the hand is not full; says whether it was added.
    pub fn add_card(&mut self, card: Card) -> (added: bool)
        ensures
            added == (old(self).cards@.len() < old(self).max_size),
            added ==> final(self).cards@ == old(self).cards@.push(card),
            !added ==> final(self).cards@ == old(self).cards@,
            final(self).max_size == old(self).max_size,
    {
        if self.cards.len() < self.max_size {
            self.cards.push(card);
            true
        } else {
            false
        }
    }

    /// Takes out the card at `index`, if there is one.
    pub fn remove_card(&mut self, index: usize) -> (r: Option<Card>)
        ensures
            index < old(self).cards@.len() ==> {
                &&& r == Some(old(self).cards@[index as int])
                &&& final(self).cards@ == old(self).cards@.remove(index as int)
            },
            index >= old(self).cards@.len() ==> r is None && final(self).cards@ == old(self).cards@,
            final(self).max_size == old(self).max_size,
    {
        if index < self.cards.len() {
            Some(self.cards.remove(index))
        } else {
            None
        }
    }

    /// The number of cards in hand.
    pub fn len(&self) -> (r: usize)
        ensures
            r == self.cards@.len(),
    {
        self.cards.len()
    }

    /// Whether the hand is empty.
    pub fn is_empty(&self) -> (r: bool)
        ensures
            r == (self.cards@.len() == 0),
    {
        self.cards.len() == 0
    }
}

// ============================================================================
// Decks and the card pool
// ============================================================================

/// The cards a new game starts with.
pub open spec fn starting_deck() -> Seq<CardView> {
    let strike = |id: u32|
        card_view(id, "御剑术"@, "造成6点伤害"@, CardType::Attack, 1,
            CardEffect::DealDamage { amount: 6 }, CardRarity::Common);
    let guard = |id: u32|
        card_view(id, "金光咒"@, "获得5点护盾"@, CardType::Defense, 1,
            CardEffect::GainBlock { amount: 5 }, CardRarity::Common);
    let mend = |id: u32|
        card_view(id, "回春术"@, "恢复5点道行"@, CardType::Skill, 1,
            CardEffect::Heal { amount: 5 }, CardRarity::Uncommon);
    seq![
        strike(0), strike(1), strike(2), strike(3), strike(4),
        guard(5), guard(6), guard(7), guard(8),
        card_view(9, "剑气斩"@, "造成3点伤害，抽1张牌"@, CardType::Attack, 1,
            CardEffect::AttackAndDraw { damage: 3, cards: 1 }, CardRarity::Uncommon),
        mend(10), mend(11),
    ]
}

/// The starting deck has twelve cards, each identified by its position, all costing one
/// energy: five strikes of 6 damage (positions 0 to 4), four guards of 5 block (5 to 8), one
/// slash of 3 damage that draws a card (9) and two healing spells of 5 (10 and 11).
pub proof fn law_starting_deck()
    ensures
        starting_deck().len() == 12,
        forall|k: int| 0 <= k < 12 ==> #[trigger] starting_deck()[k].id == k && starting_deck()[k].cost == 1,
        forall|k: int| 0 <= k < 5 ==> #[trigger] starting_deck()[k].effect == (CardEffect::DealDamage { amount: 6 }),
        forall|k: int| 5 <= k < 9 ==> #[trigger] starting_deck()[k].effect == (CardEffect::GainBlock { amount: 5 }),
        starting_deck()[9].effect == (CardEffect::AttackAndDraw { damage: 3, cards: 1 }),
        starting_deck()[10].effect == (CardEffect::Heal { amount: 5 }),
        starting_deck()[11].effect == (CardEffect::Heal { amount: 5 }),
{
}

/// Builds the cards a new game starts with: five strikes, four guards, one sword-qi slash
/// and two healing spells.
pub fn create_starting_deck() -> (r: Vec<Card>)
    ensures
        views(r@) == starting_deck(),
{
    let r = vec![
        Card::new(0, "御剑术", "造成6点伤害", CardType::Attack, 1, CardEffect::DealDamage { amount: 6 }, CardRarity::Common),
        Card::new(1, "御剑术", "造成6点伤害", CardType::Attack, 1, CardEffect::DealDamage { amount: 6 }, CardRarity::Common),
        Card::new(2, "御剑术", "造成6点伤害", CardType::Attack, 1, CardEffect::DealDamage { amount: 6 }, CardRarity::Common),
        Card::new(3, "御剑术", "造成6点伤害", CardType::Attack, 1, CardEffect::DealDamage { amount: 6 }, CardRarity::Common),
        Card::new(4, "御剑术", "造成6点伤害", CardType::Attack, 1, CardEffect::DealDamage { amount: 6 }, CardRarity::Common),
        Card::new(5, "金光咒", "获得5点护盾", CardType::Defense, 1, CardEffect::GainBlock { amount: 5 }, CardRarity::Common),
        Card::new(6, "金光咒", "获得5点护盾", CardType::Defense, 1, CardEffect::GainBlock { amount: 5 }, CardRarity::Common),
        Card::new(7, "金光咒", "获得5点护盾", CardType::Defense, 1, CardEffect::GainBlock { amount: 5 }, CardRarity::Common),
        Card::new(8, "金光咒", "获得5点护盾", CardType::Defense, 1, CardEffect::GainBlock { amount: 5 }, CardRarity::Common),
        Card::new(9, "剑气斩", "造成3点伤害，抽1张牌", CardType::Attack, 1, CardEffect::AttackAndDraw { damage: 3, cards: 1 }, CardRarity::Uncommon),
        Card::new(10, "回春术", "恢复5点道行", CardType::Skill, 1, CardEffect::Heal { amount: 5 }, CardRarity::Uncommon),
        Card::new(11, "回春术", "恢复5点道行", CardType::Skill, 1, CardEffect::Heal { amount: 5 }, CardRarity::Uncommon),
    ];
    assert(views(r@) =~= starting_deck());
    r
}

/// The deck settings of a game.
#[derive(Debug)]
pub struct DeckConfig {
    /// The cards a new game starts with.
    pub starting_deck: Vec<Card>,
    /// The most cards in hand.
    pub max_hand_size: usize,
    /// The cards drawn each turn.
    pub cards_per_turn: usize,
}

impl Default for DeckConfig {
    fn default() -> (r: Self)
        ensures
            views(r.starting_deck@) == starting_deck(),
            r.max_hand_size == 10,
            r.cards_per_turn == 5,
    {
        DeckConfig { starting_deck: create_starting_deck(), max_hand_size: 10, cards_per_turn: 5 }
    }
}

/// Every card a reward or a shop can offer, in pool order.
pub open spec fn pool() -> Seq<CardView> {
    seq![
        card_view(100, "雷法·掌心雷"@, "造成12点雷击伤害"@, CardType::Attack, 2, CardEffect::DealDamage { amount: 12 }, CardRarity::Common),
        card_view(101, "不动明王"@, "获得8点护盾"@, CardType::Defense, 1, CardEffect::GainBlock { amount: 8 }, CardRarity::Common),
        card_view(102, "疾风刺"@, "造成4点快速伤害"@, CardType::Attack, 0, CardEffect::DealDamage { amount: 4 }, CardRarity::Common),
        card_view(200, "御剑·流云"@, "造成8点伤害，抽2张牌"@, CardType::Attack, 2, CardEffect::AttackAndDraw { damage: 8, cards: 2 }, CardRarity::Uncommon),
        card_view(201, "太极图"@, "获得12点护盾"@, CardType::Defense, 2, CardEffect::GainBlock { amount: 12 }, CardRarity::Uncommon),
        card_view(202, "甘霖咒"@, "恢复10点道行"@, CardType::Skill, 2, CardEffect::Heal { amount: 10 }, CardRarity::Uncommon),
        card_view(203, "破军剑"@, "造成6点伤害，抽1张牌"@, CardType::Attack, 1, CardEffect::AttackAndDraw { damage: 6, cards: 1 }, CardRarity::Uncommon),
        card_view(204, "神识全开"@, "抽3张牌，获得2点灵力"@, CardType::Skill, 1, CardEffect::DrawCards { amount: 3 }, CardRarity::Uncommon),
        card_view(300, "九天神雷"@, "造成20点毁灭伤害"@, CardType::Attack, 3, CardEffect::DealDamage { amount: 20 }, CardRarity::Rare),
        card_view(301, "金身法相"@, "获得15点护盾，恢复5点道行"@, CardType::Defense, 2, CardEffect::GainBlock { amount: 15 }, CardRarity::Rare),
        card_view(302, "万物回春"@, "恢复15点道行"@, CardType::Skill, 2, CardEffect::Heal { amount: 15 }, CardRarity::Rare),
    ]
}

/// Whether a card view has the given rarity.
pub open spec fn has_rarity(r: CardRarity) -> spec_fn(CardView) -> bool {
    |v: CardView| v.rarity == r
}

/// The view of a card with its identifier replaced.
pub open spec fn with_id(v: CardView, id: u32) -> CardView {
    CardView { id, ..v }
}

/// The rarity a reward gets for a percentile roll: below 50 common, below 90 uncommon,
/// otherwise rare.
pub open spec fn reward_rarity(roll: u64) -> CardRarity {
    if roll < 50 {
        CardRarity::Common
    } else if roll < 90 {
        CardRarity::Uncommon
    } else {
        CardRarity::Rare
    }
}

/// Of the hundred percentile rolls, the fifty below 50 give a common reward, the forty from
/// 50 to 89 an uncommon one and the ten from 90 up a rare one; a reward is never special,
/// and a higher roll never gives a less rare card.
pub proof fn law_reward_rarity(roll: u64, higher: u64)
    requires
        roll <= higher,
    ensures
        roll < 50 <==> reward_rarity(roll) == CardRarity::Common,
        50 <= roll < 90 <==> reward_rarity(roll) == CardRarity::Uncommon,
        roll >= 90 <==> reward_rarity(roll) == CardRarity::Rare,
        reward_rarity(roll) != CardRarity::Special,
        reward_rarity(roll) == CardRarity::Rare ==> reward_rarity(higher) == CardRarity::Rare,
        reward_rarity(roll) == CardRarity::Uncommon ==> reward_rarity(higher) != CardRarity::Common,
{
}

/// The pool cards a reward with percentile roll `roll` is drawn from: those of the rarity
/// the roll gives, in pool order.
pub open spec fn reward_choices(roll: u64) -> Seq<CardView> {
    pool().filter(has_rarity(reward_rarity(roll)))
}

/// `v` is the reward card at position `i` drawn with the percentile roll `roll` (below 100)
/// and the choice `pick` among `reward_choices(roll)`: that card, renumbered `1000 + i`.
pub open spec fn is_reward_drawn(v: CardView, i: int, roll: u64, pick: int) -> bool {
    &&& roll < 100
    &&& 0 <= pick < reward_choices(roll).len()
    &&& v == with_id(reward_choices(roll)[pick], (1000 + i) as u32)
}

/// `v` is the card at position `i` of a reward list: drawn with some roll below 100 and some
/// choice among the cards of the rolled rarity.
pub open spec fn is_reward(v: CardView, i: int) -> bool {
    exists|roll: u64, pick: int| #[trigger] is_reward_drawn(v, i, roll, pick)
}

/// The card pool.
pub struct CardPool;

impl CardPool {
    /// Every card a reward can offer, in pool order.
    pub fn all_cards() -> (r: Vec<Card>)
        ensures
            views(r@) == pool(),
    {
        let r = vec![
            Card::new(100, "雷法·掌心雷", "造成12点雷击伤害", CardType::Attack, 2, CardEffect::DealDamage { amount: 12 }, CardRarity::Common),
            Card::new(101, "不动明王", "获得8点护盾", CardType::Defense, 1, CardEffect::GainBlock { amount: 8 }, CardRarity::Common),
            Card::new(102, "疾风刺", "造成4点快速伤害", CardType::Attack, 0, CardEffect::DealDamage { amount: 4 }, CardRarity::Common),
            Card::new(200, "御剑·流云", "造成8点伤害，抽2张牌", CardType::Attack, 2, CardEffect::AttackAndDraw { damage: 8, cards: 2 }, CardRarity::Uncommon),
            Card::new(201, "太极图", "获得12点护盾", CardType::Defense, 2, CardEffect::GainBlock { amount: 12 }, CardRarity::Uncommon),
            Card::new(202, "甘霖咒", "恢复10点道行", CardType::Skill, 2, CardEffect::Heal { amount: 10 }, CardRarity::Uncommon),
            Card::new(203, "破军剑", "造成6点伤害，抽1张牌", CardType::Attack, 1, CardEffect::AttackAndDraw { damage: 6, cards: 1 }, CardRarity::Uncommon),
            Card::new(204, "神识全开", "抽3张牌，获得2点灵力", CardType::Skill, 1, CardEffect::DrawCards { amount: 3 }, CardRarity::Uncommon),
            Card::new(300, "九天神雷", "造成20点毁灭伤害", CardType::Attack, 3, CardEffect::DealDamage { amount: 20 }, CardRarity::Rare),
            Card::new(301, "金身法相", "获得15点护盾，恢复5点道行", CardType::Defense, 2, CardEffect::GainBlock { amount: 15 }, CardRarity::Rare),
            Card::new(302, "万物回春", "恢复15点道行", CardType::Skill, 2, CardEffect::Heal { amount: 15 }, CardRarity::Rare),
        ];
        assert(views(r@) =~= pool());
        r
    }

    /// The cards of the pool with the given rarity, in pool order.
    pub fn get_by_rarity(rarity: CardRarity) -> (r: Vec<Card>)
        ensures
            views(r@) == pool().filter(has_rarity(rarity)),
    {
        let all = Self::all_cards();
        let mut r: Vec<Card> = Vec::new();
        let mut i: usize = 0;
        while i < all.len()
            invariant
                0 <= i <= all@.len(),
                views(all@) == pool(),
                views(r@) == pool().take(i as int).filter(has_rarity(rarity)),
            decreases all@.len() - i,
        {
            proof {
                reveal(Seq::filter);
                assert(pool().take(i + 1).drop_last() =~= pool().take(i as int));
                assert(pool()[i as int] == all@[i as int]@);
            }
            if all[i].rarity == rarity {
                let c = all[i].clone();
                r.push(c);
                assert(views(r@) =~= pool().take(i + 1).filter(has_rarity(rarity)));
            } else {
                assert(views(r@) =~= pool().take(i + 1).filter(has_rarity(rarity)));
            }
            i = i + 1;
        }
        assert(pool().take(all@.len() as int) =~= pool());
        r
    }

    /// Up to `count` different cards of the pool, picked at random.
    pub fn random_cards(count: usize) -> (r: Vec<Card>)
        ensures
            r@.len() == if count <= pool().len() { count as int } else { pool().len() as int },
            taken_at_distinct_positions(pool(), views(r@)),
    {
        let all = Self::all_cards();
        let mut positions: Vec<usize> = Vec::new();
        let mut k: usize = 0;
        while k < all.len()
            invariant
                k <= all@.len(),
                positions@.len() == k,
                forall|j: int| 0 <= j < k ==> positions@[j] == j,
            decreases all@.len() - k,
        {
            positions.push(k);
            k = k + 1;
        }
        let picks = choose_several(&positions, count);
        let ghost pos = choose|pos: Seq<int>|
            #![trigger pos.len()]
            pos.len() == picks@.len()
            && (forall|i: int| 0 <= i < pos.len() ==> 0 <= #[trigger] pos[i] < positions@.len())
            && (forall|i: int| 0 <= i < pos.len() ==> picks@[i] == positions@[#[trigger] pos[i]])
            && (forall|i: int, j: int| 0 <= i < j < pos.len() ==> pos[i] != pos[j]);
        let mut r: Vec<Card> = Vec::new();
        let mut i: usize = 0;
        while i < picks.len()
            invariant
                i <= picks@.len(),
                views(all@) == pool(),
                all@.len() == positions@.len(),
                pos.len() == picks@.len(),
                forall|t: int| 0 <= t < pos.len() ==> 0 <= #[trigger] pos[t] < positions@.len(),
                forall|t: int| 0 <= t < pos.len() ==> picks@[t] == positions@[#[trigger] pos[t]],
                forall|j: int| 0 <= j < positions@.len() ==> positions@[j] == j,
                r@.len() == i,
                forall|t: int| 0 <= t < i ==> #[trigger] r@[t] == all@[pos[t]],
            decreases picks@.len() - i,
        {
            assert(picks@[i as int] == pos[i as int]);
            let c = all[picks[i]].clone();
            r.push(c);
            i = i + 1;
        }
        proof {
            lemma_taken_witness(pool(), views(r@), pos);
        }
        r
    }

    /// The reward card at position `index` for the percentile roll `roll` and the choice `pick`
    /// among the pool cards of the rolled rarity: that card renumbered `1000 + index`, or `None`
    /// when there are no more than `pick` such cards.
    pub fn reward_card(roll: u64, pick: usize, index: usize) -> (r: Option<Card>)
        requires
            1000 + index <= u32::MAX,
        ensures
            r is Some <==> pick < reward_choices(roll).len(),
            r matches Some(c) ==> c@ == with_id(reward_choices(roll)[pick as int], (1000 + index) as u32),
    {
        let rarity = Self::rarity_for_roll(roll);
        let cards = Self::get_by_rarity(rarity);
        if pick < cards.len() {
            let mut card = cards[pick].clone();
            card.id = 1000 + index as u32;
            Some(card)
        } else {
            None
        }
    }

    /// `count` reward cards: the card at position `i` comes from `reward_card` with a
    /// percentile roll below 100 and a random choice among the cards of the rolled rarity.
    pub fn random_rewards(count: usize) -> (r: Vec<Card>)
        requires
            count + 999 <= u32::MAX,
        ensures
            r@.len() == count,
            forall|i: int| 0 <= i < count ==> #[trigger] is_reward(r@[i]@, i),
    {
        let mut rewards: Vec<Card> = Vec::new();
        let mut i: usize = 0;
        while i < count
            invariant
                i <= count,
                count + 999 <= u32::MAX,
                rewards@.len() == i,
                forall|t: int| 0 <= t < i ==> #[trigger] is_reward(rewards@[t]@, t),
            decreases count - i,
        {
            let roll = random_below(100);
            let choices = Self::get_by_rarity(Self::rarity_for_roll(roll));
            let mut positions: Vec<usize> = Vec::new();
            let mut k: usize = 0;
            while k < choices.len()
                invariant
                    k <= choices@.len(),
                    positions@.len() == k,
                    forall|j: int| 0 <= j < k ==> positions@[j] == j,
                decreases choices@.len() - k,
            {
                positions.push(k);
                k = k + 1;
            }
            proof {
                lemma_rarity_present(reward_rarity(roll));
            }
            let pick = choose_one(&positions);
            match pick {
                Some(p) => {
                    let ghost q = choose|q: int| 0 <= q < positions@.len() && positions@[q] == p;
                    assert(views(choices@) == reward_choices(roll));
                    match Self::reward_card(roll, p, i) {
                        Some(card) => {
                            rewards.push(card);
                            assert(is_reward_drawn(rewards@[i as int]@, i as int, roll, p as int));
                        },
                        None => {
                            assert(false);
                        },
                    }
                },
                None => {
                    assert(false);
                },
            }
            i = i + 1;
        }
        rewards
    }

    /// The rarity a reward gets for a percentile roll.
    pub fn rarity_for_roll(roll: u64) -> (r: CardRarity)
        ensures
            r == reward_rarity(roll),
    {
        if roll < 50 {
            CardRarity::Common
        } else if roll < 90 {
            CardRarity::Uncommon
        } else {
            CardRarity::Rare
        }
    }

    /// The signature technique granted on reaching Foundation Establishment.
    pub fn get_innate_spell() -> (r: Card)
        ensures
            r@ == card_view(999, "青莲剑歌"@, "造成30点穿透伤害，恢复10点灵力"@, CardType::Attack, 3,
                CardEffect::MultiAttack { damage: 10, times: 3 }, CardRarity::Special),
    {
        Card::new(
            999,
            "青莲剑歌",
            "造成30点穿透伤害，恢复10点灵力",
            CardType::Attack,
            3,
            CardEffect::MultiAttack { damage: 10, times: 3 },
            CardRarity::Special,
        )
    }
}

/// A card offered as a reward.
#[derive(Debug)]
pub struct RewardCard {
    /// The card.
    pub card: Card,
    /// Whether it is selected.
    pub selected: bool,
}

proof fn lemma_taken_witness(from: Seq<CardView>, picked: Seq<CardView>, pos: Seq<int>)
    requires
        pos.len() == picked.len(),
        forall|i: int| 0 <= i < pos.len() ==> 0 <= #[trigger] pos[i] < from.len(),
        forall|i: int| 0 <= i < pos.len() ==> picked[i] == from[#[trigger] pos[i]],
        forall|i: int, j: int| 0 <= i < j < pos.len() ==> pos[i] != pos[j],
    ensures
        taken_at_distinct_positions(from, picked),
{
    assert(pos.len() == picked.len());
}

/// Each rarity a reward roll can give has at least one card in the pool.
proof fn lemma_rarity_present(rarity: CardRarity)
    requires
        rarity != CardRarity::Special,
    ensures
        pool().filter(has_rarity(rarity)).len() > 0,
{
    let k: int = if rarity == CardRarity::Common { 0 } else if rarity == CardRarity::Uncommon { 3 } else { 8 };
    assert(has_rarity(rarity)(pool()[k]));
    broadcast use Seq::lemma_filter_contains;
    assert(pool().filter(has_rarity(rarity)).contains(pool()[k]));
}

} // verus!
