//! Combat and economy attributes of unit templates, read from the static
//! game-balance dataset, and the orb rule that decides whether a side may
//! produce a unit.
use std::collections::BTreeMap;
use vstd::prelude::*;

use crate::game_info::{OrbColor, PlayerInfo, TokenSlot};

verus! {

/// Card ids of fully upgraded cards are the template's id plus this offset.
pub const UPGRADE_U3: u32 = 3_000_000;

/// Orbs a unit needs: hard requirements per color, a neutral requirement that
/// any color covers, and the total.
#[derive(Debug, Clone, Copy, PartialEq, Eq, Structural)]
pub struct CardOrbRequirements {
    pub total: i32,
    pub neutral: i32,
    pub fire: i32,
    pub shadow: i32,
    pub nature: i32,
    pub frost: i32,
}

#[derive(Debug, Clone, Copy, PartialEq, Eq, Structural, PartialOrd, Ord, Hash)]
pub enum CardOffenseType {
    S,
    M,
    L,
    XL,
    Special,
}

#[derive(Debug, Clone, Copy, PartialEq, Eq, Structural, PartialOrd, Ord, Hash)]
pub enum CardDefenseType {
    S,
    M,
    L,
    XL,
}

/// Attributes of one unit template.
#[derive(Debug, Clone, Copy, PartialEq, Eq, Structural)]
pub struct CardInfo {
    pub id: u32,
    pub power_cost: u32,
    pub orb_requirements: CardOrbRequirements,
    pub offense_type: CardOffenseType,
    pub defense_type: CardDefenseType,
    pub melee: bool,
    pub siege: bool,
}

/// One entry of the dataset, with the fields the attributes are read from.
#[derive(Debug)]
pub struct CardJson {
    pub official_card_ids: Vec<u32>,
    /// Power cost of the fully upgraded card.
    pub power_cost: u32,
    pub orbs_total: i32,
    pub orbs_neutral: i32,
    pub orbs_fire: i32,
    pub orbs_shadow: i32,
    pub orbs_nature: i32,
    pub orbs_frost: i32,
    pub offense_type: i64,
    pub defense_type: i64,
    pub card_slug: String,
    pub ability_names: Vec<String>,
    pub attack_type: String,
}

/// The attributes that stand in for an unknown template.
pub open spec fn default_card_info() -> CardInfo {
    CardInfo {
        id: 0,
        power_cost: 0,
        orb_requirements: CardOrbRequirements {
            total: 0,
            neutral: 0,
            fire: 0,
            shadow: 0,
            nature: 0,
            frost: 0,
        },
        offense_type: CardOffenseType::S,
        defense_type: CardDefenseType::S,
        melee: false,
        siege: false,
    }
}

/// What `str::to_lowercase` makes of a string.
pub uninterp spec fn lower_of(s: Seq<char>) -> Seq<char>;

/// Relies on `str::to_lowercase`: the result depends on the characters alone.
#[verifier::external_body]
fn lowercase(s: &String) -> (r: String)
    ensures
        r@ == lower_of(s@),
{
    s.to_lowercase()
}

pub open spec fn offense_type_of(index: i64) -> CardOffenseType {
    if index == 1 {
        CardOffenseType::M
    } else if index == 2 {
        CardOffenseType::L
    } else if index == 3 {
        CardOffenseType::XL
    } else if index == 4 {
        CardOffenseType::Special
    } else {
        CardOffenseType::S
    }
}

pub open spec fn defense_type_of(index: i64) -> CardDefenseType {
    if index == 1 {
        CardDefenseType::M
    } else if index == 2 {
        CardDefenseType::L
    } else if index == 3 {
        CardDefenseType::XL
    } else {
        CardDefenseType::S
    }
}

/// The id of an entry: its single official id, or 0 when it has none or several.
pub open spec fn card_id_of(ids: Seq<u32>) -> u32 {
    if ids.len() == 1 {
        ids[0]
    } else {
        0
    }
}

/// A unit is a siege unit when one of its abilities is called "Siege", except
/// for Sunstriders, whose ability of that name only adds a fixed bonus.
pub open spec fn is_siege(lower_slug: Seq<char>, ability_names: Seq<Seq<char>>) -> bool {
    lower_slug != "sunstriders"@ && ability_names.contains("Siege"@)
}

/// Attack type "1" is ranged; "0", and anything unknown, is melee.
pub open spec fn is_melee(attack_type: Seq<char>) -> bool {
    attack_type != "1"@
}

pub open spec fn names_view(names: Seq<String>) -> Seq<Seq<char>> {
    names.map_values(|n: String| n@)
}

/// The attributes read from a dataset entry.
pub open spec fn card_info_of(card: CardJson) -> CardInfo {
    CardInfo {
        id: card_id_of(card.official_card_ids@),
        power_cost: card.power_cost,
        orb_requirements: CardOrbRequirements {
            total: card.orbs_total,
            neutral: card.orbs_neutral,
            fire: card.orbs_fire,
            shadow: card.orbs_shadow,
            nature: card.orbs_nature,
            frost: card.orbs_frost,
        },
        offense_type: offense_type_of(card.offense_type),
        defense_type: defense_type_of(card.defense_type),
        melee: is_melee(card.attack_type@),
        siege: is_siege(lower_of(card.card_slug@), names_view(card.ability_names@)),
    }
}

impl CardInfo {
    pub fn new() -> (r: CardInfo)
        ensures
            r == default_card_info(),
    {
        CardInfo {
            id: 0,
            power_cost: 0,
            orb_requirements: CardOrbRequirements {
                total: 0,
                neutral: 0,
                fire: 0,
                shadow: 0,
                nature: 0,
                frost: 0,
            },
            offense_type: CardOffenseType::S,
            defense_type: CardDefenseType::S,
            melee: false,
            siege: false,
        }
    }

    pub fn from_card_json(card: &CardJson) -> (r: CardInfo)
        ensures
            r == card_info_of(*card),
    {
        let lower_slug = lowercase(&card.card_slug);
        CardInfo {
            id: Self::get_card_id(&card.official_card_ids),
            power_cost: card.power_cost,
            orb_requirements: CardOrbRequirements {
                total: card.orbs_total,
                neutral: card.orbs_neutral,
                fire: card.orbs_fire,
                shadow: card.orbs_shadow,
                nature: card.orbs_nature,
                frost: card.orbs_frost,
            },
            offense_type: Self::get_card_offense_type(card.offense_type),
            defense_type: Self::get_card_defense_type(card.defense_type),
            melee: Self::get_card_melee(&card.attack_type),
            siege: Self::get_card_siege(&lower_slug, &card.ability_names),
        }
    }

    pub fn get_card_id(ids: &Vec<u32>) -> (r: u32)
        ensures
            r == card_id_of(ids@),
    {
        if ids.len() == 1 {
            ids[0]
        } else {
            0
        }
    }

    pub fn get_card_offense_type(index: i64) -> (r: CardOffenseType)
        ensures
            r == offense_type_of(index),
    {
        match index {
            1 => CardOffenseType::M,
            2 => CardOffenseType::L,
            3 => CardOffenseType::XL,
            4 => CardOffenseType::Special,
            _ => CardOffenseType::S,
        }
    }

    pub fn get_card_defense_type(index: i64) -> (r: CardDefenseType)
        ensures
            r == defense_type_of(index),
    {
        match index {
            1 => CardDefenseType::M,
            2 => CardDefenseType::L,
            3 => CardDefenseType::XL,
            _ => CardDefenseType::S,
        }
    }

    /// Siege flag of an entry, from its lower-cased slug and its ability names.
    pub fn get_card_siege(lower_slug: &String, ability_names: &Vec<String>) -> (r: bool)
        ensures
            r == is_siege(lower_slug@, names_view(ability_names@)),
    {
        let sunstriders = "sunstriders".to_owned();
        if *lower_slug == sunstriders {
            return false;
        }
        let siege = "Siege".to_owned();
        let mut i: usize = 0;
        while i < ability_names.len()
            invariant
                i <= ability_names@.len(),
                siege@ == "Siege"@,
                lower_slug@ != "sunstriders"@,
                forall|j: int| 0 <= j < i ==> ability_names@[j]@ != "Siege"@,
            decreases ability_names@.len() - i,
        {
            if ability_names[i] == siege {
                assert(names_view(ability_names@)[i as int] == "Siege"@);
                return true;
            }
            i = i + 1;
        }
        assert(!names_view(ability_names@).contains("Siege"@)) by {
            if names_view(ability_names@).contains("Siege"@) {
                let k = choose|k: int|
                    0 <= k < names_view(ability_names@).len() && names_view(ability_names@)[k]
                        == "Siege"@;
                assert(ability_names@[k]@ == "Siege"@);
            }
        }
        false
    }

    pub fn get_card_melee(attack_type: &String) -> (r: bool)
        ensures
            r == is_melee(attack_type@),
    {
        let ranged = "1".to_owned();
        !(*attack_type == ranged)
    }
}


/// Number of orbs of `color` among the given orb structures.
pub open spec fn orb_count(slots: Seq<TokenSlot>, color: OrbColor) -> int
    decreases slots.len(),
{
    if slots.len() == 0 {
        0
    } else {
        orb_count(slots.drop_last(), color) + if slots.last().color == color {
            1int
        } else {
            0int
        }
    }
}

/// Whether the side holds the universal starting orb.
pub open spec fn has_starting_orb(slots: Seq<TokenSlot>) -> bool {
    exists|i: int| 0 <= i < slots.len() && slots[i].color == OrbColor::Starting
}

/// The orb rule. With the starting orb only units that need exactly one orb
/// may be produced. Otherwise every hard color requirement must be covered by
/// orbs of that color, and the orbs left over must cover the neutral requirement.
pub open spec fn orbs_satisfy(slots: Seq<TokenSlot>, req: CardOrbRequirements) -> bool {
    if has_starting_orb(slots) {
        req.total == 1
    } else {
        let fire = orb_count(slots, OrbColor::Fire) - req.fire;
        let shadow = orb_count(slots, OrbColor::Shadow) - req.shadow;
        let nature = orb_count(slots, OrbColor::Nature) - req.nature;
        let frost = orb_count(slots, OrbColor::Frost) - req.frost;
        &&& fire >= 0
        &&& shadow >= 0
        &&& nature >= 0
        &&& frost >= 0
        &&& fire + shadow + nature + frost >= req.neutral
    }
}

/// A colored orb, as opposed to the starting orb or an unknown kind.
pub open spec fn is_colored(color: OrbColor) -> bool {
    color == OrbColor::Fire || color == OrbColor::Shadow || color == OrbColor::Nature || color
        == OrbColor::Frost
}

/// Holding one more colored orb never makes a unit's orb requirements unmet.
pub proof fn lemma_orb_requirements_monotonic(
    slots: Seq<TokenSlot>,
    extra: TokenSlot,
    req: CardOrbRequirements,
)
    requires
        is_colored(extra.color),
    ensures
        orbs_satisfy(slots, req) ==> orbs_satisfy(slots.push(extra), req),
{
    let more = slots.push(extra);
    assert(more.drop_last() =~= slots);
    assert(has_starting_orb(more) == has_starting_orb(slots)) by {
        if has_starting_orb(more) {
            let i = choose|i: int| 0 <= i < more.len() && more[i].color == OrbColor::Starting;
            assert(i < slots.len());
            assert(slots[i] == more[i]);
        }
        if has_starting_orb(slots) {
            let i = choose|i: int| 0 <= i < slots.len() && slots[i].color == OrbColor::Starting;
            assert(more[i] == slots[i]);
        }
    }
}

proof fn lemma_orb_count_bounds(slots: Seq<TokenSlot>, color: OrbColor)
    ensures
        0 <= orb_count(slots, color) <= slots.len(),
    decreases slots.len(),
{
    if slots.len() > 0 {
        lemma_orb_count_bounds(slots.drop_last(), color);
    }
}

/// Whether the given orb structures meet the requirements `req`.
pub fn orbs_fulfill_requirements(slots: &Vec<TokenSlot>, req: &CardOrbRequirements) -> (r: bool)
    ensures
        r == orbs_satisfy(slots@, *req),
{
    let mut fire: u64 = 0;
    let mut shadow: u64 = 0;
    let mut nature: u64 = 0;
    let mut frost: u64 = 0;
    let mut has_starting = false;
    let mut i: usize = 0;
    while i < slots.len()
        invariant
            i <= slots@.len(),
            fire == orb_count(slots@.subrange(0, i as int), OrbColor::Fire),
            shadow == orb_count(slots@.subrange(0, i as int), OrbColor::Shadow),
            nature == orb_count(slots@.subrange(0, i as int), OrbColor::Nature),
            frost == orb_count(slots@.subrange(0, i as int), OrbColor::Frost),
            has_starting == has_starting_orb(slots@.subrange(0, i as int)),
        decreases slots@.len() - i,
    {
        let ghost prefix = slots@.subrange(0, i as int);
        let ghost next = slots@.subrange(0, i + 1);
        proof {
            assert(next.drop_last() =~= prefix);
            lemma_orb_count_bounds(prefix, OrbColor::Fire);
            lemma_orb_count_bounds(prefix, OrbColor::Shadow);
            lemma_orb_count_bounds(prefix, OrbColor::Nature);
            lemma_orb_count_bounds(prefix, OrbColor::Frost);
        }
        match slots[i].color {
            OrbColor::Fire => fire = fire + 1,
            OrbColor::Shadow => shadow = shadow + 1,
            OrbColor::Nature => nature = nature + 1,
            OrbColor::Frost => frost = frost + 1,
            OrbColor::Starting => has_starting = true,
            OrbColor::Other => {},
        }
        proof {
            if has_starting_orb(next) {
                let k = choose|k: int| 0 <= k < next.len() && next[k].color == OrbColor::Starting;
                if k < i {
                    assert(prefix[k] == next[k]);
                }
            }
            if has_starting_orb(prefix) {
                let k = choose|k: int| 0 <= k < prefix.len() && prefix[k].color == OrbColor::Starting;
                assert(next[k] == prefix[k]);
            }
        }
        i = i + 1;
    }
    proof {
        assert(slots@.subrange(0, slots@.len() as int) =~= slots@);
    }
    if has_starting {
        return req.total == 1;
    }
    let f: i128 = fire as i128 - req.fire as i128;
    let s: i128 = shadow as i128 - req.shadow as i128;
    let n: i128 = nature as i128 - req.nature as i128;
    let fr: i128 = frost as i128 - req.frost as i128;
    if f < 0 || s < 0 || n < 0 || fr < 0 {
        return false;
    }
    f + s + n + fr >= req.neutral as i128
}

/// Strips the upgrade offset from a card id.
pub open spec fn base_card_id(id: u32) -> u32 {
    if id >= UPGRADE_U3 {
        (id - UPGRADE_U3) as u32
    } else {
        id
    }
}

/// Index of the first entry, from `i` on, that lists `id` among its official ids.
pub open spec fn first_entry_from(data: Seq<CardJson>, id: u32, i: int) -> Option<int>
    decreases data.len() - i,
{
    if i < 0 || i >= data.len() {
        None
    } else if data[i].official_card_ids@.contains(id) {
        Some(i)
    } else {
        first_entry_from(data, id, i + 1)
    }
}

/// The attributes of the template of card `card_id`, or the default ones when
/// the dataset does not list it.
pub open spec fn lookup_card_info(data: Seq<CardJson>, card_id: u32) -> CardInfo {
    match first_entry_from(data, base_card_id(card_id), 0) {
        Some(i) => card_info_of(data[i]),
        None => default_card_info(),
    }
}

/// The dataset and the attributes already read from it.
#[derive(Debug)]
pub struct CardData {
    pub data: Vec<CardJson>,
    pub card_info_cache: BTreeMap<u32, CardInfo>,
}

impl CardData {
    /// Every cached entry holds what a lookup in the dataset gives.
    pub open spec fn wf(&self) -> bool {
        forall|k: u32|
            #[trigger] self.card_info_cache@.contains_key(k) ==> self.card_info_cache@[k]
                == lookup_card_info(self.data@, k)
    }

    pub fn new() -> (r: CardData)
        ensures
            r.wf(),
            r.data@.len() == 0,
    {
        CardData { data: Vec::new(), card_info_cache: BTreeMap::new() }
    }

    /// Replaces the dataset (and forgets what was read from the old one).
    pub fn load(&mut self, data: Vec<CardJson>)
        ensures
            final(self).wf(),
            final(self).data@ == data@,
    {
        self.data = data;
        self.card_info_cache = BTreeMap::new();
    }

    pub fn card_id_without_upgrade(id: u32) -> (r: u32)
        ensures
            r == base_card_id(id),
    {
        if id >= UPGRADE_U3 {
            return id - UPGRADE_U3;
        }
        id
    }

    fn get_card_from_id(&self, card_id: u32) -> (r: Option<usize>)
        ensures
            r matches Some(i) ==> i < self.data@.len() && first_entry_from(
                self.data@,
                base_card_id(card_id),
                0,
            ) == Some(i as int),
            r is None ==> first_entry_from(self.data@, base_card_id(card_id), 0) is None,
    {
        let base = CardData::card_id_without_upgrade(card_id);
        let mut i: usize = 0;
        while i < self.data.len()
            invariant
                i <= self.data@.len(),
                base == base_card_id(card_id),
                first_entry_from(self.data@, base, 0) == first_entry_from(self.data@, base, i as int),
            decreases self.data@.len() - i,
        {
            let ids = &self.data[i].official_card_ids;
            let mut j: usize = 0;
            while j < ids.len()
                invariant
                    i < self.data@.len(),
                    base == base_card_id(card_id),
                    first_entry_from(self.data@, base, 0) == first_entry_from(
                        self.data@,
                        base,
                        i as int,
                    ),
                    ids@ == self.data@[i as int].official_card_ids@,
                    j <= ids@.len(),
                    forall|k: int| 0 <= k < j ==> ids@[k] != base,
                decreases ids@.len() - j,
            {
                if ids[j] == base {
                    assert(self.data@[i as int].official_card_ids@.contains(base)) by {
                        assert(ids@[j as int] == base);
                    }
                    return Some(i);
                }
                j = j + 1;
            }
            assert(!self.data@[i as int].official_card_ids@.contains(base));
            i = i + 1;
        }
        None
    }

    /// The attributes of the template of card `card_id`.
    pub fn get_card_info_from_id(&mut self, card_id: u32) -> (r: CardInfo)
        requires
            old(self).wf(),
        ensures
            final(self).wf(),
            final(self).data@ == old(self).data@,
            r == lookup_card_info(old(self).data@, card_id),
    {
        proof {
            broadcast use vstd::std_specs::btree::group_btree_axioms;
            broadcast use vstd::laws_cmp::group_laws_cmp;
        }
        if let Some(info) = self.card_info_cache.get(&card_id) {
            return *info;
        }
        match self.get_card_from_id(card_id) {
            Some(index) => {
                let info = CardInfo::from_card_json(&self.data[index]);
                self.card_info_cache.insert(card_id, info);
                info
            },
            None => CardInfo::new(),
        }
    }
}


impl CardData {
    /// Whether the side's orbs meet the orb requirements of the card `card_id`.
    pub fn player_fullfills_orb_requirements(&mut self, card_id: u32, player_info: &PlayerInfo) -> (r:
        bool)
        requires
            old(self).wf(),
        ensures
            final(self).wf(),
            final(self).data@ == old(self).data@,
            r == orbs_satisfy(
                player_info.token_slots@,
                lookup_card_info(old(self).data@, card_id).orb_requirements,
            ),
    {
        let info = self.get_card_info_from_id(card_id);
        orbs_fulfill_requirements(&player_info.token_slots, &info.orb_requirements)
    }
}


impl CardData {
    /// The attributes of the template of card `card_id`, read from the cache
    /// when it holds them, without filling it.
    pub fn card_info(&self, card_id: u32) -> (r: CardInfo)
        requires
            self.wf(),
        ensures
            r == lookup_card_info(self.data@, card_id),
    {
        proof {
            broadcast use vstd::std_specs::btree::group_btree_axioms;
            broadcast use vstd::laws_cmp::group_laws_cmp;
        }
        if let Some(info) = self.card_info_cache.get(&card_id) {
            return *info;
        }
        match self.get_card_from_id(card_id) {
            Some(index) => CardInfo::from_card_json(&self.data[index]),
            None => CardInfo::new(),
        }
    }
}


/// The name of an offense class.
pub open spec fn offense_name(t: CardOffenseType) -> Seq<char> {
    match t {
        CardOffenseType::S => "S"@,
        CardOffenseType::M => "M"@,
        CardOffenseType::L => "L"@,
        CardOffenseType::XL => "XL"@,
        CardOffenseType::Special => "Special"@,
    }
}

/// The name of a defense class.
pub open spec fn defense_name(t: CardDefenseType) -> Seq<char> {
    match t {
        CardDefenseType::S => "S"@,
        CardDefenseType::M => "M"@,
        CardDefenseType::L => "L"@,
        CardDefenseType::XL => "XL"@,
    }
}

impl CardOffenseType {
    pub fn to_string(&self) -> (r: String)
        ensures
            r@ == offense_name(*self),
    {
        match self {
            CardOffenseType::S => "S".to_owned(),
            CardOffenseType::M => "M".to_owned(),
            CardOffenseType::L => "L".to_owned(),
            CardOffenseType::XL => "XL".to_owned(),
            CardOffenseType::Special => "Special".to_owned(),
        }
    }

    /// The class of the given name, if there is one.
    pub fn from_name(input: &String) -> (r: Option<CardOffenseType>)
        ensures
            match r {
                Some(t) => offense_name(t) == input@,
                None => forall|t: CardOffenseType| offense_name(t) != input@,
            },
    {
        let all = [
            CardOffenseType::S,
            CardOffenseType::M,
            CardOffenseType::L,
            CardOffenseType::XL,
            CardOffenseType::Special,
        ];
        let mut i: usize = 0;
        while i < 5
            invariant
                all@ == seq![
                    CardOffenseType::S,
                    CardOffenseType::M,
                    CardOffenseType::L,
                    CardOffenseType::XL,
                    CardOffenseType::Special,
                ],
                i <= 5,
                forall|k: int| 0 <= k < i ==> offense_name(all@[k]) != input@,
            decreases 5 - i,
        {
            let name = all[i].to_string();
            if name == *input {
                return Some(all[i]);
            }
            i = i + 1;
        }
        proof {
            assert forall|t: CardOffenseType| offense_name(t) != input@ by {
                match t {
                    CardOffenseType::S => assert(offense_name(all@[0]) != input@),
                    CardOffenseType::M => assert(offense_name(all@[1]) != input@),
                    CardOffenseType::L => assert(offense_name(all@[2]) != input@),
                    CardOffenseType::XL => assert(offense_name(all@[3]) != input@),
                    CardOffenseType::Special => assert(offense_name(all@[4]) != input@),
                }
            }
        }
        None
    }
}

impl CardDefenseType {
    pub fn to_string(&self) -> (r: String)
        ensures
            r@ == defense_name(*self),
    {
        match self {
            CardDefenseType::S => "S".to_owned(),
            CardDefenseType::M => "M".to_owned(),
            CardDefenseType::L => "L".to_owned(),
            CardDefenseType::XL => "XL".to_owned(),
        }
    }

    /// The class of the given name, if there is one.
    pub fn from_name(input: &String) -> (r: Option<CardDefenseType>)
        ensures
            match r {
                Some(t) => defense_name(t) == input@,
                None => forall|t: CardDefenseType| defense_name(t) != input@,
            },
    {
        let all = [CardDefenseType::S, CardDefenseType::M, CardDefenseType::L, CardDefenseType::XL];
        let mut i: usize = 0;
        while i < 4
            invariant
                all@ == seq![
                    CardDefenseType::S,
                    CardDefenseType::M,
                    CardDefenseType::L,
                    CardDefenseType::XL,
                ],
                i <= 4,
                forall|k: int| 0 <= k < i ==> defense_name(all@[k]) != input@,
            decreases 4 - i,
        {
            let name = all[i].to_string();
            if name == *input {
                return Some(all[i]);
            }
            i = i + 1;
        }
        proof {
            assert forall|t: CardDefenseType| defense_name(t) != input@ by {
                match t {
                    CardDefenseType::S => assert(defense_name(all@[0]) != input@),
                    CardDefenseType::M => assert(defense_name(all@[1]) != input@),
                    CardDefenseType::L => assert(defense_name(all@[2]) != input@),
                    CardDefenseType::XL => assert(defense_name(all@[3]) != input@),
                }
            }
        }
        None
    }
}

} // verus!
