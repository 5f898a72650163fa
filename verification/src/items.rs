//! The closed catalogue of inventory items and their static metadata:
//! a display name, a rarity tier (with colour and label) and flavour text.
use vstd::prelude::*;

verus! {

/// A colour as the chat transport encodes it: a packed `0xRRGGBB` integer.
#[derive(Clone, Copy, PartialEq, Eq, Structural, Debug)]
pub struct Colour(pub u32);

/// The five rarity tiers an item can have.
#[derive(Clone, Copy, PartialEq, Eq, Structural, Debug)]
pub enum Rarity {
    Common,
    Uncommon,
    Rare,
    Mythical,
    Unique,
}

impl Rarity {
    /// The accent colour shown next to items of this tier.
    pub fn color(&self) -> (r: Colour)
        ensures
            r == self.spec_color(),
    {
        match self {
            Rarity::Common => Colour(0xFFFFFF),
            Rarity::Uncommon => Colour(0x00FFA8),
            Rarity::Rare => Colour(0xF4DC00),
            Rarity::Mythical => Colour(0x6A00DF),
            Rarity::Unique => Colour(0xFF0081),
        }
    }

    pub open spec fn spec_color(&self) -> Colour {
        match self {
            Rarity::Common => Colour(0xFFFFFF),
            Rarity::Uncommon => Colour(0x00FFA8),
            Rarity::Rare => Colour(0xF4DC00),
            Rarity::Mythical => Colour(0x6A00DF),
            Rarity::Unique => Colour(0xFF0081),
        }
    }

    /// The bracketed label shown next to items of this tier.
    pub fn name(&self) -> (r: &'static str)
        ensures
            r@ == self.spec_name(),
    {
        match self {
            Rarity::Common => "[common]",
            Rarity::Uncommon => "[uncommon]",
            Rarity::Rare => "[rare]",
            Rarity::Mythical => "[mythical]",
            Rarity::Unique => "[unique]",
        }
    }

    pub open spec fn spec_name(&self) -> Seq<char> {
        match self {
            Rarity::Common => "[common]"@,
            Rarity::Uncommon => "[uncommon]"@,
            Rarity::Rare => "[rare]"@,
            Rarity::Mythical => "[mythical]"@,
            Rarity::Unique => "[unique]"@,
        }
    }
}

/// Static metadata of one item kind.
pub struct ItemInfo {
    pub name: String,
    pub rarity: Rarity,
    pub description: String,
}

/// The closed enumeration of item kinds a user can hold.
#[derive(Clone, Copy, PartialEq, Eq, Structural, Debug, Hash)]
pub enum InventoryItem {
    TestGizmo,
    Stick,
    Rock,
    Wand,
    ScytheVivi,
    Ace,
    CrossMinsley,
    OracleAmulet,
    Gun,
}

pub open spec fn spec_item_name(item: InventoryItem) -> Seq<char> {
    match item {
        InventoryItem::TestGizmo => "Testing Gizmo"@,
        InventoryItem::Stick => "Stick"@,
        InventoryItem::Rock => "Rock"@,
        InventoryItem::Wand => "Wand"@,
        InventoryItem::ScytheVivi => "Vivi's Scythe"@,
        InventoryItem::Ace => "Ace of Spades"@,
        InventoryItem::CrossMinsley => "Minsley's Cross"@,
        InventoryItem::OracleAmulet => "The Oracle's Amulet"@,
        InventoryItem::Gun => "Gun"@,
    }
}

pub open spec fn spec_item_description(item: InventoryItem) -> Seq<char> {
    match item {
        InventoryItem::TestGizmo => "An oozing formless blob of purple and black. No matter what angle you look at, the checkerboard is in the same position in your eyes."@,
        InventoryItem::Stick => "A wooden rod from a tree."@,
        InventoryItem::Rock => "A stone-cold... stone, comes from the ground."@,
        InventoryItem::Wand => "A mystical wand imbued with magic, capable of casting ancient spells."@,
        InventoryItem::ScytheVivi => "Vivi's magical yet deadly scythe."@,
        InventoryItem::Ace => "The most powerful item, can only be used once, but could change the course of a fight."@,
        InventoryItem::CrossMinsley => "A dangerous weapons for rapid hits and stuns."@,
        InventoryItem::OracleAmulet => "A rune with an eye in the middle. It is said to contain The Oracle."@,
        InventoryItem::Gun => "How the hell is this legal? (deals a lot of damage, but large surface area)"@,
    }
}

pub open spec fn spec_item_rarity(item: InventoryItem) -> Rarity {
    match item {
        InventoryItem::TestGizmo => Rarity::Mythical,
        InventoryItem::Stick => Rarity::Common,
        InventoryItem::Rock => Rarity::Common,
        InventoryItem::Wand => Rarity::Rare,
        InventoryItem::ScytheVivi => Rarity::Unique,
        InventoryItem::Ace => Rarity::Mythical,
        InventoryItem::CrossMinsley => Rarity::Unique,
        InventoryItem::OracleAmulet => Rarity::Unique,
        InventoryItem::Gun => Rarity::Uncommon,
    }
}

impl InventoryItem {
    /// The static metadata of this item kind.
    pub fn info(&self) -> (r: ItemInfo)
        ensures
            r.name@ == spec_item_name(*self),
            r.rarity == spec_item_rarity(*self),
            r.description@ == spec_item_description(*self),
    {
        match self {
            InventoryItem::TestGizmo => ItemInfo {
                name: "Testing Gizmo".to_owned(),
                rarity: Rarity::Mythical,
                description: "An oozing formless blob of purple and black. No matter what angle you look at, the checkerboard is in the same position in your eyes.".to_owned(),
            },
            InventoryItem::Stick => ItemInfo {
                name: "Stick".to_owned(),
                rarity: Rarity::Common,
                description: "A wooden rod from a tree.".to_owned(),
            },
            InventoryItem::Rock => ItemInfo {
                name: "Rock".to_owned(),
                rarity: Rarity::Common,
                description: "A stone-cold... stone, comes from the ground.".to_owned(),
            },
            InventoryItem::Wand => ItemInfo {
                name: "Wand".to_owned(),
                rarity: Rarity::Rare,
                description: "A mystical wand imbued with magic, capable of casting ancient spells.".to_owned(),
            },
            InventoryItem::ScytheVivi => ItemInfo {
                name: "Vivi's Scythe".to_owned(),
                rarity: Rarity::Unique,
                description: "Vivi's magical yet deadly scythe.".to_owned(),
            },
            InventoryItem::Ace => ItemInfo {
                name: "Ace of Spades".to_owned(),
                rarity: Rarity::Mythical,
                description: "The most powerful item, can only be used once, but could change the course of a fight.".to_owned(),
            },
            InventoryItem::CrossMinsley => ItemInfo {
                name: "Minsley's Cross".to_owned(),
                rarity: Rarity::Unique,
                description: "A dangerous weapons for rapid hits and stuns.".to_owned(),
            },
            InventoryItem::OracleAmulet => ItemInfo {
                name: "The Oracle's Amulet".to_owned(),
                rarity: Rarity::Unique,
                description: "A rune with an eye in the middle. It is said to contain The Oracle.".to_owned(),
            },
            InventoryItem::Gun => ItemInfo {
                name: "Gun".to_owned(),
                rarity: Rarity::Uncommon,
                description: "How the hell is this legal? (deals a lot of damage, but large surface area)".to_owned(),
            },
        }
    }
}

/// How many of `x` the inventory holds.
pub open spec fn item_count(s: Seq<InventoryItem>, x: InventoryItem) -> nat
    decreases s.len(),
{
    if s.len() == 0 {
        0
    } else {
        item_count(s.drop_last(), x) + if s.last() == x {
            1nat
        } else {
            0nat
        }
    }
}

/// An item occurs in the inventory exactly when its count is positive.
pub proof fn lemma_item_count_contains(s: Seq<InventoryItem>, x: InventoryItem)
    ensures
        item_count(s, x) > 0 <==> s.contains(x),
    decreases s.len(),
{
    if s.len() > 0 {
        lemma_item_count_contains(s.drop_last(), x);
        if s.drop_last().contains(x) {
            let i = choose|i: int| 0 <= i < s.drop_last().len() && s.drop_last()[i] == x;
            assert(s[i] == x);
        }
        if s.contains(x) && s.last() != x {
            let i = choose|i: int| 0 <= i < s.len() && s[i] == x;
            assert(s.drop_last()[i] == x);
        }
    }
}

fn count_items(v: &Vec<InventoryItem>, x: InventoryItem) -> (r: usize)
    ensures
        r == item_count(v@, x),
{
    let mut i: usize = 0;
    let mut cnt: usize = 0;
    while i < v.len()
        invariant
            i <= v@.len(),
            cnt == item_count(v@.subrange(0, i as int), x),
            cnt <= i,
        decreases v@.len() - i,
    {
        let ghost pre = v@.subrange(0, i as int);
        if v[i] == x {
            cnt = cnt + 1;
        }
        proof {
            assert(v@.subrange(0, i + 1).drop_last() =~= pre);
            assert(v@.subrange(0, i + 1).last() == v@[i as int]);
        }
        i = i + 1;
    }
    proof {
        assert(v@.subrange(0, v@.len() as int) =~= v@);
    }
    cnt
}

/// Aggregates an inventory into (item kind, count) pairs: one pair per
/// distinct kind held, each with its exact count.
pub fn item_counts(items: &Vec<InventoryItem>) -> (r: Vec<(InventoryItem, usize)>)
    ensures
        forall|j: int, k: int| 0 <= j < k < r@.len() ==> (#[trigger] r@[j]).0 != (#[trigger] r@[k]).0,
        forall|j: int|
            0 <= j < r@.len() ==> (#[trigger] r@[j]).1 == item_count(items@, r@[j].0) && items@.contains(
                r@[j].0,
            ),
        forall|x: InventoryItem|
            #[trigger] items@.contains(x) ==> exists|j: int| 0 <= j < r@.len() && (#[trigger] r@[j]).0 == x,
{
    let mut out: Vec<(InventoryItem, usize)> = Vec::new();
    let mut i: usize = 0;
    while i < items.len()
        invariant
            i <= items@.len(),
            forall|j: int, k: int|
                0 <= j < k < out@.len() ==> (#[trigger] out@[j]).0 != (#[trigger] out@[k]).0,
            forall|j: int|
                0 <= j < out@.len() ==> (#[trigger] out@[j]).1 == item_count(items@, out@[j].0)
                    && items@.contains(out@[j].0),
            forall|x: InventoryItem|
                #[trigger] items@.subrange(0, i as int).contains(x) ==> exists|j: int|
                    0 <= j < out@.len() && (#[trigger] out@[j]).0 == x,
        decreases items@.len() - i,
    {
        let ghost pre = out@;
        let x = items[i];
        let mut seen = false;
        let mut j: usize = 0;
        while j < out.len()
            invariant
                j <= out@.len(),
                out@ == pre,
                seen <==> exists|k: int| 0 <= k < j && (#[trigger] out@[k]).0 == x,
            decreases out@.len() - j,
        {
            if out[j].0 == x {
                seen = true;
                proof {
                    assert(out@[j as int].0 == x);
                }
            }
            j = j + 1;
        }
        if !seen {
            let cnt = count_items(items, x);
            out.push((x, cnt));
            proof {
                assert(items@.contains(x)) by {
                    assert(items@[i as int] == x);
                }
                lemma_item_count_contains(items@, x);
            }
        }
        proof {
            assert forall|y: InventoryItem| #[trigger]
                items@.subrange(0, i + 1).contains(y) implies exists|k: int|
                0 <= k < out@.len() && (#[trigger] out@[k]).0 == y by {
                let w = choose|w: int|
                    0 <= w < i + 1 && (#[trigger] items@.subrange(0, i + 1)[w]) == y;
                if w < i {
                    assert(items@.subrange(0, i as int).contains(y)) by {
                        assert(items@.subrange(0, i as int)[w] == y);
                    }
                    let k0 = choose|k0: int| 0 <= k0 < pre.len() && (#[trigger] pre[k0]).0 == y;
                    assert(out@[k0].0 == y);
                } else {
                    assert(y == x);
                    if seen {
                        let k0 = choose|k0: int| 0 <= k0 < pre.len() && (#[trigger] pre[k0]).0 == x;
                        assert(out@[k0].0 == y);
                    } else {
                        assert(out@[out@.len() - 1].0 == y);
                    }
                }
            }
        }
        i = i + 1;
    }
    proof {
        assert(items@.subrange(0, items@.len() as int) =~= items@);
    }
    out
}

} // verus!
