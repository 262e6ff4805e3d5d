//! The shop: what it sells and at what price.

use crate::cards::{Card, CardRarity};
use crate::relic::{Relic, RelicRarity};
use vstd::prelude::*;
use vstd::string::*;

verus! {

/// `pat` occurs in `s` as a run of consecutive characters.
pub open spec fn contains_sub(s: Seq<char>, pat: Seq<char>) -> bool {
    exists|i: int| 0 <= i && i + pat.len() <= s.len() && #[trigger] s.subrange(i, i + pat.len()) == pat
}

/// The characters of `s`, in order.
fn chars_of(s: &str) -> (r: Vec<char>)
    ensures
        r@ == s@,
{
    let n = s.unicode_len();
    let mut r: Vec<char> = Vec::new();
    let mut i: usize = 0;
    while i < n
        invariant
            n == s@.len(),
            i <= n,
            r@ == s@.subrange(0, i as int),
        decreases n - i,
    {
        r.push(s.get_char(i));
        i = i + 1;
    }
    r
}

/// Whether `pat` occurs in `text` starting at position `at`.
fn matches_at(text: &Vec<char>, pat: &Vec<char>, at: usize) -> (r: bool)
    requires
        at + pat@.len() <= text@.len(),
    ensures
        r == (text@.subrange(at as int, at + pat@.len()) == pat@),
{
    let n = text.len();
    let mut k: usize = 0;
    while k < pat.len()
        invariant
            n == text@.len(),
            at + pat@.len() <= text@.len(),
            k <= pat@.len(),
            forall|j: int| 0 <= j < k ==> text@[at + j] == pat@[j],
        decreases pat@.len() - k,
    {
        if text[at + k] != pat[k] {
            assert(text@.subrange(at as int, at + pat@.len())[k as int] != pat@[k as int]);
            return false;
        }
        k = k + 1;
    }
    assert(text@.subrange(at as int, at + pat@.len()) =~= pat@);
    true
}

/// Whether `pat` occurs in `s` as a run of consecutive characters.
fn str_contains(s: &str, pat: &str) -> (r: bool)
    ensures
        r == contains_sub(s@, pat@),
{
    let text = chars_of(s);
    let p = chars_of(pat);
    if p.len() == 0 {
        assert(s@.subrange(0int, 0int + pat@.len()) =~= pat@);
        return true;
    }
    if p.len() > text.len() {
        return false;
    }
    let last = text.len() - p.len();
    let mut i: usize = 0;
    while i <= last
        invariant
            text@ == s@,
            p@ == pat@,
            p@.len() > 0,
            last == text@.len() - p@.len(),
            last < usize::MAX,
            i <= last + 1,
            forall|j: int| 0 <= j < i ==> #[trigger] s@.subrange(j, j + pat@.len()) != pat@,
        decreases last + 1 - i,
    {
        if matches_at(&text, &p, i) {
            assert(s@.subrange(i as int, i + pat@.len()) == pat@);
            return true;
        }
        i = i + 1;
    }
    false
}

/// Something the shop sells.
#[derive(Debug)]
pub enum ShopItem {
    /// A technique (a card).
    Card(Card),
    /// A treasure (a relic).
    Relic(Relic),
    /// A healing elixir.
    Elixir { name: String, hp_restore: i32, price: i32, description: String },
    /// Forgetting a technique (removing a card).
    ForgetTechnique,
}

/// The price of a card of a rarity.
pub open spec fn card_price(r: CardRarity) -> i32 {
    match r {
        CardRarity::Common => 30,
        CardRarity::Uncommon => 50,
        CardRarity::Rare => 80,
        CardRarity::Special => 100,
    }
}

/// The price of a relic of a rarity.
pub open spec fn relic_price(r: RelicRarity) -> i32 {
    match r {
        RelicRarity::Common => 50,
        RelicRarity::Uncommon => 75,
        RelicRarity::Rare => 100,
        RelicRarity::Special => 150,
    }
}

/// The price of an item: the thunder-calling ultimate costs 100 whatever its rarity, other
/// cards and relics go by rarity, an elixir by its own price, forgetting costs 50.
pub open spec fn price_of(item: ShopItem) -> i32 {
    match item {
        ShopItem::Card(card) => if contains_sub(card.name@, "天象·引雷术"@) {
            100
        } else {
            card_price(card.rarity)
        },
        ShopItem::Relic(relic) => relic_price(relic.rarity),
        ShopItem::Elixir { price, .. } => price,
        ShopItem::ForgetTechnique => 50,
    }
}

/// The rank of a relic's rarity, from 0 (common) to 3 (special).
pub open spec fn relic_rank(r: RelicRarity) -> int {
    match r {
        RelicRarity::Common => 0,
        RelicRarity::Uncommon => 1,
        RelicRarity::Rare => 2,
        RelicRarity::Special => 3,
    }
}

/// The rank of a card's rarity, from 0 (common) to 3 (special).
pub open spec fn card_rank(r: CardRarity) -> int {
    match r {
        CardRarity::Common => 0,
        CardRarity::Uncommon => 1,
        CardRarity::Rare => 2,
        CardRarity::Special => 3,
    }
}

/// A relic costs 50, 75, 100 or 150 as it is common, uncommon, rare or special, so a rarer
/// relic always costs more. A card costs 30, 50, 80 or 100 by rarity in the same way, rarer
/// costing more, except that a card whose name holds the thunder-calling ultimate's name
/// costs 100 whatever its rarity. Forgetting a technique costs 50.
pub proof fn law_shop_prices(a: Relic, b: Relic, c: Card, d: Card)
    ensures
        a.rarity == RelicRarity::Common ==> price_of(ShopItem::Relic(a)) == 50,
        a.rarity == RelicRarity::Uncommon ==> price_of(ShopItem::Relic(a)) == 75,
        a.rarity == RelicRarity::Rare ==> price_of(ShopItem::Relic(a)) == 100,
        a.rarity == RelicRarity::Special ==> price_of(ShopItem::Relic(a)) == 150,
        relic_rank(a.rarity) < relic_rank(b.rarity) ==> price_of(ShopItem::Relic(a)) < price_of(
            ShopItem::Relic(b),
        ),
        contains_sub(c.name@, "天象·引雷术"@) ==> price_of(ShopItem::Card(c)) == 100,
        !contains_sub(c.name@, "天象·引雷术"@) ==> price_of(ShopItem::Card(c)) == (match c.rarity {
            CardRarity::Common => 30i32,
            CardRarity::Uncommon => 50i32,
            CardRarity::Rare => 80i32,
            CardRarity::Special => 100i32,
        }),
        !contains_sub(c.name@, "天象·引雷术"@) && !contains_sub(d.name@, "天象·引雷术"@) && card_rank(
            c.rarity,
        ) < card_rank(d.rarity) ==> price_of(ShopItem::Card(c)) < price_of(ShopItem::Card(d)),
        price_of(ShopItem::ForgetTechnique) == 50,
{
}

impl ShopItem {
    /// The price of the item.
    pub fn get_price(&self) -> (r: i32)
        ensures
            r == price_of(*self),
    {
        match self {
            ShopItem::Card(card) => {
                if str_contains(card.name.as_str(), "天象·引雷术") {
                    return 100;
                }
                match card.rarity {
                    CardRarity::Common => 30,
                    CardRarity::Uncommon => 50,
                    CardRarity::Rare => 80,
                    CardRarity::Special => 100,
                }
            },
            ShopItem::Relic(relic) => match relic.rarity {
                RelicRarity::Common => 50,
                RelicRarity::Uncommon => 75,
                RelicRarity::Rare => 100,
                RelicRarity::Special => 150,
            },
            ShopItem::Elixir { price, .. } => *price,
            ShopItem::ForgetTechnique => 50,
        }
    }

    /// The name of the item.
    pub fn get_name(&self) -> (r: &str)
        ensures
            r@ == match *self {
                ShopItem::Card(card) => card.name@,
                ShopItem::Relic(relic) => relic.name@,
                ShopItem::Elixir { name, .. } => name@,
                ShopItem::ForgetTechnique => "遗忘功法"@,
            },
    {
        match self {
            ShopItem::Card(card) => card.name.as_str(),
            ShopItem::Relic(relic) => relic.name.as_str(),
            ShopItem::Elixir { name, .. } => name.as_str(),
            ShopItem::ForgetTechnique => "遗忘功法",
        }
    }

    /// The description of the item.
    pub fn get_description(&self) -> (r: &str)
        ensures
            r@ == match *self {
                ShopItem::Card(card) => card.description@,
                ShopItem::Relic(relic) => relic.description@,
                ShopItem::Elixir { description, .. } => description@,
                ShopItem::ForgetTechnique => "从识海中永久抹去一门功法，以免贪多嚼不烂"@,
            },
    {
        match self {
            ShopItem::Card(card) => card.description.as_str(),
            ShopItem::Relic(relic) => relic.description.as_str(),
            ShopItem::Elixir { description, .. } => description.as_str(),
            ShopItem::ForgetTechnique => "从识海中永久抹去一门功法，以免贪多嚼不烂",
        }
    }
}

/// The items on sale.
#[derive(Debug)]
pub struct CurrentShopItems {
    pub items: Vec<ShopItem>,
}

/// The card picked to be forgotten.
#[derive(Debug, Clone, Copy, PartialEq, Eq, Structural)]
pub struct SelectedCardForRemoval {
    pub card_id: Option<u32>,
}

} // verus!
