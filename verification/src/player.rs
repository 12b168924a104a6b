//! The state of one player, as a connection holds it in memory.

use crate::database::{PlayerInfo, PlayerInfoView};
use std::collections::HashMap;
use vstd::prelude::*;
use vstd::std_specs::hash::spec_hash_map_iter;
use vstd::std_specs::iter::IteratorSpec;

verus! {

broadcast use vstd::std_specs::hash::group_hash_axioms;

/// `entries` lists what `table` holds: every entry once, in some order.
pub open spec fn lists_table<V>(entries: Seq<(i32, &V)>, table: Map<i32, V>) -> bool {
    &&& entries.len() == table.dom().len()
    &&& forall|i: int|
        0 <= i < entries.len() ==> table.contains_key(#[trigger] entries[i].0)
            && table[entries[i].0] == *entries[i].1
    &&& forall|i: int, j: int| 0 <= i < j < entries.len() ==> entries[i].0 != entries[j].0
    &&& forall|key: i32|
        table.contains_key(key) ==> exists|i: int|
            0 <= i < entries.len() && (#[trigger] entries[i]).0 == key
}

/// Walks a table once and returns its entries in the order of the walk.
/// Which order that is, is the table's own affair; everything that depends on
/// an order takes it from the list returned here.
pub fn table_entries<'a, V>(table: &'a HashMap<i32, V>) -> (entries: Vec<(i32, &'a V)>)
    ensures
        lists_table(entries@, table@),
{
    let mut entries: Vec<(i32, &'a V)> = Vec::new();
    for pair in it: table.iter()
        invariant
            entries@.len() == it.index(),
            it.seq() == spec_hash_map_iter(table).remaining(),
            it.seq().no_duplicates(),
            forall|j: int|
                0 <= j < entries@.len() ==> entries@[j].0 == *it.seq()[j].0 && entries@[j].1
                    == it.seq()[j].1,
    {
        let (key, value) = pair;
        entries.push((*key, value));
    }
    proof {
        let walk = spec_hash_map_iter(table).remaining();
        assert forall|i: int, j: int| 0 <= i < j < entries@.len() implies entries@[i].0
            != entries@[j].0 by {
            if entries@[i].0 == entries@[j].0 {
                assert(table@[*walk[i].0] == *walk[i].1);
                assert(table@[*walk[j].0] == *walk[j].1);
                assert(walk[i] == walk[j]);
            }
        }
        assert forall|key: i32| table@.contains_key(key) implies exists|i: int|
            0 <= i < entries@.len() && (#[trigger] entries@[i]).0 == key by {
            assert(walk.contains((&key, &table@[key])));
            let i = choose|i: int| 0 <= i < walk.len() && walk[i] == (&key, &table@[key]);
            assert(entries@[i].0 == key);
        }
    }
    entries
}

/// Progress of a player with one fighter.
#[derive(Clone)]
pub struct BrawlerData {
    pub cards: HashMap<i32, i32>,
    pub skins: Vec<i32>,
    pub selected: i32,
    pub trophies: i32,
    pub highest_trophies: i32,
    pub level: i32,
    pub power_points: i32,
    pub state: i32,
    pub star_power: i32,
}

/// A [`BrawlerData`] with its cards as a map and its skins as a sequence.
pub struct BrawlerView {
    pub cards: Map<i32, i32>,
    pub skins: Seq<i32>,
    pub selected: i32,
    pub trophies: i32,
    pub highest_trophies: i32,
    pub level: i32,
    pub power_points: i32,
    pub state: i32,
    pub star_power: i32,
}

impl View for BrawlerData {
    type V = BrawlerView;

    open spec fn view(&self) -> BrawlerView {
        BrawlerView {
            cards: self.cards@,
            skins: self.skins@,
            selected: self.selected,
            trophies: self.trophies,
            highest_trophies: self.highest_trophies,
            level: self.level,
            power_points: self.power_points,
            state: self.state,
            star_power: self.star_power,
        }
    }
}

/// A table of fighters as a mathematical value: each fighter as its view.
pub open spec fn brawlers_view(table: Map<i32, BrawlerData>) -> Map<i32, BrawlerView> {
    Map::new(|id: i32| table.contains_key(id), |id: i32| table[id]@)
}

impl BrawlerData {
    /// A copy of this progress, made field by field.
    pub fn copy(&self) -> (copy: Self)
        ensures
            copy@ == self@,
    {
        let copy = BrawlerData {
            cards: self.cards.clone(),
            skins: self.skins.clone(),
            selected: self.selected,
            trophies: self.trophies,
            highest_trophies: self.highest_trophies,
            level: self.level,
            power_points: self.power_points,
            state: self.state,
            star_power: self.star_power,
        };
        assert(copy.skins@ =~= self.skins@);
        copy
    }
}

/// A copy of a table of fighters, made fighter by fighter.
pub fn copy_brawlers(table: &HashMap<i32, BrawlerData>) -> (copy: HashMap<i32, BrawlerData>)
    ensures
        brawlers_view(copy@) == brawlers_view(table@),
{
    let entries = table_entries(table);
    let mut copy: HashMap<i32, BrawlerData> = HashMap::new();
    let mut i: usize = 0;
    while i < entries.len()
        invariant
            i <= entries.len(),
            lists_table(entries@, table@),
            forall|id: i32|
                copy@.contains_key(id) ==> exists|j: int|
                    0 <= j < i && (#[trigger] entries@[j]).0 == id,
            forall|j: int|
                0 <= j < i ==> copy@.contains_key((#[trigger] entries@[j]).0)
                    && copy@[entries@[j].0]@ == entries@[j].1@,
        decreases entries.len() - i,
    {
        let ghost before = copy@;
        copy.insert(entries[i].0, entries[i].1.copy());
        proof {
            assert forall|id: i32| copy@.contains_key(id) implies exists|j: int|
                0 <= j < i + 1 && (#[trigger] entries@[j]).0 == id by {
                if id == entries@[i as int].0 {
                    assert(entries@[i as int].0 == id);
                } else {
                    assert(before.contains_key(id));
                    let j = choose|j: int| 0 <= j < i && (#[trigger] entries@[j]).0 == id;
                    assert(entries@[j].0 == id);
                }
            }
            assert forall|j: int| 0 <= j < i + 1 implies copy@.contains_key(
                (#[trigger] entries@[j]).0,
            ) && copy@[entries@[j].0]@ == entries@[j].1@ by {
                if j < i {
                    assert(entries@[j].0 != entries@[i as int].0);
                }
            }
        }
        i += 1;
    }
    proof {
        assert forall|id: i32| copy@.contains_key(id) == table@.contains_key(id) by {
            if copy@.contains_key(id) {
                let j = choose|j: int| 0 <= j < entries@.len() && (#[trigger] entries@[j]).0 == id;
                assert(table@.contains_key(entries@[j].0));
            }
            if table@.contains_key(id) {
                let j = choose|j: int| 0 <= j < entries@.len() && (#[trigger] entries@[j]).0 == id;
                assert(copy@.contains_key(entries@[j].0));
            }
        }
        assert forall|id: i32| table@.contains_key(id) implies copy@[id]@ == table@[id]@ by {
            let j = choose|j: int| 0 <= j < entries@.len() && (#[trigger] entries@[j]).0 == id;
            assert(copy@[entries@[j].0]@ == entries@[j].1@);
            assert(table@[entries@[j].0] == *entries@[j].1);
        }
        assert(brawlers_view(copy@) =~= brawlers_view(table@));
    }
    copy
}

/// A player as seen by the connection that serves them.
pub struct Player {
    pub name: String,
    pub low_id: u32,
    pub high_id: u32,
    pub player_experience: u32,
    pub solo_wins: u32,
    pub duo_wins: u32,
    pub three_x_three_wins: u32,
    pub gems: u32,
    pub gold: u32,
    pub elixir: u32,
    pub chips: u32,
    pub coins_doubler: u32,
    pub coins_booster: u32,
    pub trophies: u32,
    pub highest_trophies: u32,
    pub profile_icon: u32,
    pub room_id: u32,
    pub last_connection_time: u32,
    pub player_status: u32,
    pub region: String,
    pub control_mode: u32,
    pub has_battle_hints: bool,
    pub coins_reward: i32,
    pub event_count: i32,
    pub token: Option<String>,
    pub version: u16,
    pub unlocked_brawlers: HashMap<i32, BrawlerData>,
}

/// A [`Player`] with its strings as character sequences and its table of
/// fighters as a map.
pub struct PlayerView {
    pub name: Seq<char>,
    pub low_id: u32,
    pub high_id: u32,
    pub player_experience: u32,
    pub solo_wins: u32,
    pub duo_wins: u32,
    pub three_x_three_wins: u32,
    pub gems: u32,
    pub gold: u32,
    pub elixir: u32,
    pub chips: u32,
    pub coins_doubler: u32,
    pub coins_booster: u32,
    pub trophies: u32,
    pub highest_trophies: u32,
    pub profile_icon: u32,
    pub room_id: u32,
    pub last_connection_time: u32,
    pub player_status: u32,
    pub region: Seq<char>,
    pub control_mode: u32,
    pub has_battle_hints: bool,
    pub coins_reward: i32,
    pub event_count: i32,
    pub token: Option<Seq<char>>,
    pub version: u16,
    pub unlocked_brawlers: Map<i32, BrawlerView>,
}

impl View for Player {
    type V = PlayerView;

    open spec fn view(&self) -> PlayerView {
        PlayerView {
            name: self.name@,
            low_id: self.low_id,
            high_id: self.high_id,
            player_experience: self.player_experience,
            solo_wins: self.solo_wins,
            duo_wins: self.duo_wins,
            three_x_three_wins: self.three_x_three_wins,
            gems: self.gems,
            gold: self.gold,
            elixir: self.elixir,
            chips: self.chips,
            coins_doubler: self.coins_doubler,
            coins_booster: self.coins_booster,
            trophies: self.trophies,
            highest_trophies: self.highest_trophies,
            profile_icon: self.profile_icon,
            room_id: self.room_id,
            last_connection_time: self.last_connection_time,
            player_status: self.player_status,
            region: self.region@,
            control_mode: self.control_mode,
            has_battle_hints: self.has_battle_hints,
            coins_reward: self.coins_reward,
            event_count: self.event_count,
            token: match self.token {
                Some(t) => Some(t@),
                None => None,
            },
            version: self.version,
            unlocked_brawlers: brawlers_view(self.unlocked_brawlers@),
        }
    }
}

impl PlayerView {
    /// The player every new connection starts with: named "Brawler", with the
    /// identifier 0-1, four events, no token and nothing unlocked.
    pub open spec fn fresh() -> PlayerView {
        PlayerView {
            name: "Brawler"@,
            low_id: 1,
            high_id: 0,
            player_experience: 0,
            solo_wins: 0,
            duo_wins: 0,
            three_x_three_wins: 0,
            gems: 0,
            gold: 0,
            elixir: 0,
            chips: 0,
            coins_doubler: 0,
            coins_booster: 0,
            trophies: 0,
            highest_trophies: 0,
            profile_icon: 0,
            room_id: 0,
            last_connection_time: 0,
            player_status: 0,
            region: Seq::empty(),
            control_mode: 0,
            has_battle_hints: false,
            coins_reward: 0,
            event_count: 4,
            token: None,
            version: 1,
            unlocked_brawlers: Map::empty(),
        }
    }

    /// This player after a stored record was loaded into it. The record
    /// replaces everything it holds; the profile icon is set back to 0; the
    /// token, the high identifier and the version stay.
    pub open spec fn loaded(self, info: PlayerInfoView) -> PlayerView {
        PlayerView {
            name: info.name,
            low_id: info.low_id,
            player_experience: info.player_experience,
            solo_wins: info.solo_wins,
            duo_wins: info.duo_wins,
            three_x_three_wins: info.three_x_three_wins,
            gems: info.gems,
            gold: info.gold,
            elixir: info.elixir,
            chips: info.chips,
            coins_doubler: info.coins_doubler,
            coins_booster: info.coins_booster,
            trophies: info.trophies,
            highest_trophies: info.highest_trophies,
            profile_icon: 0,
            room_id: info.room_id,
            last_connection_time: info.last_connection_time,
            player_status: info.player_status,
            region: info.region,
            control_mode: info.control_mode,
            has_battle_hints: info.has_battle_hints,
            unlocked_brawlers: info.unlocked_brawlers,
            coins_reward: info.coins_reward,
            event_count: info.event_count,
            ..self
        }
    }
}

impl Player {
    /// The player that every connection starts with.
    pub fn new() -> (player: Self)
        ensures
            player@ == PlayerView::fresh(),
    {
        let player = Self {
            name: "Brawler".to_owned(),
            low_id: 1,
            high_id: 0,
            player_experience: 0,
            solo_wins: 0,
            duo_wins: 0,
            three_x_three_wins: 0,
            gems: 0,
            gold: 0,
            elixir: 0,
            chips: 0,
            coins_doubler: 0,
            coins_booster: 0,
            trophies: 0,
            highest_trophies: 0,
            profile_icon: 0,
            room_id: 0,
            last_connection_time: 0,
            player_status: 0,
            region: String::new(),
            control_mode: 0,
            has_battle_hints: false,
            coins_reward: 0,
            event_count: 4,
            token: None,
            version: 1,
            unlocked_brawlers: HashMap::new(),
        };
        assert(brawlers_view(player.unlocked_brawlers@) =~= Map::<i32, BrawlerView>::empty());
        player
    }

    /// Takes over a stored record.
    pub fn load(&mut self, info: &PlayerInfo)
        ensures
            final(self)@ == old(self)@.loaded(info@),
    {
        self.name = info.name.clone();
        self.low_id = info.low_id;
        self.player_experience = info.player_experience;
        self.solo_wins = info.solo_wins;
        self.duo_wins = info.duo_wins;
        self.three_x_three_wins = info.three_x_three_wins;
        self.gems = info.gems;
        self.gold = info.gold;
        self.elixir = info.elixir;
        self.chips = info.chips;
        self.coins_doubler = info.coins_doubler;
        self.coins_booster = info.coins_booster;
        self.trophies = info.trophies;
        self.highest_trophies = info.highest_trophies;
        self.profile_icon = 0;
        self.room_id = info.room_id;
        self.last_connection_time = info.last_connection_time;
        self.player_status = info.player_status;
        self.region = info.region.clone();
        self.control_mode = info.control_mode;
        self.has_battle_hints = info.has_battle_hints;
        self.unlocked_brawlers = copy_brawlers(&info.unlocked_brawlers);
        self.coins_reward = info.coins_reward;
        self.event_count = info.event_count;
    }
}

} // verus!
