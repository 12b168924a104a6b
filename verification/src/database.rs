//! The record a player is stored as, and the decisions taken around the
//! store. The store itself is reached by the caller.

use crate::player::{brawlers_view, copy_brawlers, BrawlerData, BrawlerView, Player, PlayerView};
use std::collections::HashMap;
use vstd::prelude::*;

verus! {

/// What is kept of a player between connections. The store holds it as an
/// opaque blob under the player's token.
pub struct PlayerInfo {
    pub name: String,
    pub low_id: u32,
    pub club_id: u32,
    pub club_role: u32,
    pub player_experience: u32,
    pub solo_wins: u32,
    pub duo_wins: u32,
    pub three_x_three_wins: u32,
    pub gems: u32,
    pub gold: u32,
    pub elixir: u32,
    pub chips: u32,
    pub coins_doubler: u32,
    pub coins_booster: u32,
    pub trophies: u32,
    pub highest_trophies: u32,
    pub profile_icon: u32,
    pub room_id: u32,
    pub last_connection_time: u32,
    pub player_status: u32,
    pub region: String,
    pub control_mode: u32,
    pub has_battle_hints: bool,
    pub unlocked_brawlers: HashMap<i32, BrawlerData>,
    pub coins_reward: i32,
    pub event_count: i32,
}

/// A [`PlayerInfo`] with its strings as character sequences and its table of
/// fighters as a map.
pub struct PlayerInfoView {
    pub name: Seq<char>,
    pub low_id: u32,
    pub club_id: u32,
    pub club_role: u32,
    pub player_experience: u32,
    pub solo_wins: u32,
    pub duo_wins: u32,
    pub three_x_three_wins: u32,
    pub gems: u32,
    pub gold: u32,
    pub elixir: u32,
    pub chips: u32,
    pub coins_doubler: u32,
    pub coins_booster: u32,
    pub trophies: u32,
    pub highest_trophies: u32,
    pub profile_icon: u32,
    pub room_id: u32,
    pub last_connection_time: u32,
    pub player_status: u32,
    pub region: Seq<char>,
    pub control_mode: u32,
    pub has_battle_hints: bool,
    pub unlocked_brawlers: Map<i32, BrawlerView>,
    pub coins_reward: i32,
    pub event_count: i32,
}

impl View for PlayerInfo {
    type V = PlayerInfoView;

    open spec fn view(&self) -> PlayerInfoView {
        PlayerInfoView {
            name: self.name@,
            low_id: self.low_id,
            club_id: self.club_id,
            club_role: self.club_role,
            player_experience: self.player_experience,
            solo_wins: self.solo_wins,
            duo_wins: self.duo_wins,
            three_x_three_wins: self.three_x_three_wins,
            gems: self.gems,
            gold: self.gold,
            elixir: self.elixir,
            chips: self.chips,
            coins_doubler: self.coins_doubler,
            coins_booster: self.coins_booster,
            trophies: self.trophies,
            highest_trophies: self.highest_trophies,
            profile_icon: self.profile_icon,
            room_id: self.room_id,
            last_connection_time: self.last_connection_time,
            player_status: self.player_status,
            region: self.region@,
            control_mode: self.control_mode,
            has_battle_hints: self.has_battle_hints,
            unlocked_brawlers: brawlers_view(self.unlocked_brawlers@),
            coins_reward: self.coins_reward,
            event_count: self.event_count,
        }
    }
}

/// Why no record was made for a player.
#[derive(Debug)]
pub enum CreateError {
    /// The player has no token to store the record under.
    MissingToken,
    /// The store already holds a record under the player's token.
    AlreadyExists,
}

impl PlayerInfoView {
    /// The record a new player is first stored as: what the player holds,
    /// outside any club and room, never seen connected, with the default
    /// icon and without battle hints.
    pub open spec fn of_new_player(player: PlayerView) -> PlayerInfoView {
        PlayerInfoView {
            name: player.name,
            low_id: player.low_id,
            club_id: 0,
            club_role: 0,
            player_experience: player.player_experience,
            solo_wins: player.solo_wins,
            duo_wins: player.duo_wins,
            three_x_three_wins: player.three_x_three_wins,
            gems: player.gems,
            gold: player.gold,
            elixir: player.elixir,
            chips: player.chips,
            coins_doubler: player.coins_doubler,
            coins_booster: player.coins_booster,
            trophies: player.trophies,
            highest_trophies: player.highest_trophies,
            profile_icon: 0,
            room_id: 0,
            last_connection_time: 0,
            player_status: 0,
            region: player.region,
            control_mode: player.control_mode,
            has_battle_hints: false,
            unlocked_brawlers: player.unlocked_brawlers,
            coins_reward: player.coins_reward,
            event_count: player.event_count,
        }
    }
}

/// Whether the store knows a token, given the number of records that it
/// holds under it.
pub fn token_exists(stored: i64) -> (known: bool)
    ensures
        known == (stored > 0),
{
    stored > 0
}

/// The identifier for the next new player, given the number of players
/// that the store holds: one more than there are. `None` where the store
/// reports a number that leaves no 32-bit identifier.
pub fn get_free_id(stored: i64) -> (id: Option<u32>)
    ensures
        id == if 0 <= stored < u32::MAX {
            Some((stored + 1) as u32)
        } else {
            None
        },
{
    if 0 <= stored && stored < 0xFFFF_FFFF {
        Some((stored + 1) as u32)
    } else {
        None
    }
}

impl PlayerInfo {
    /// Decides whether `player` gets a record, and makes it.
    ///
    /// `stored` is the number of records that the store holds under the
    /// player's token. A player without a token is refused before the store
    /// matters; one whose token is taken is refused as well.
    pub fn create_player(player: &Player, stored: i64) -> (made: Result<PlayerInfo, CreateError>)
        ensures
            player.token is None ==> made == Err::<PlayerInfo, CreateError>(
                CreateError::MissingToken,
            ),
            player.token is Some && stored > 0 ==> made == Err::<PlayerInfo, CreateError>(
                CreateError::AlreadyExists,
            ),
            player.token is Some && stored <= 0 ==> made is Ok && made->Ok_0@
                == PlayerInfoView::of_new_player(player@),
    {
        if player.token.is_none() {
            return Err(CreateError::MissingToken);
        }
        if stored > 0 {
            return Err(CreateError::AlreadyExists);
        }
        Ok(
            PlayerInfo {
                name: player.name.clone(),
                low_id: player.low_id,
                club_id: 0,
                club_role: 0,
                player_experience: player.player_experience,
                solo_wins: player.solo_wins,
                duo_wins: player.duo_wins,
                three_x_three_wins: player.three_x_three_wins,
                gems: player.gems,
                gold: player.gold,
                elixir: player.elixir,
                chips: player.chips,
                coins_doubler: player.coins_doubler,
                coins_booster: player.coins_booster,
                trophies: player.trophies,
                highest_trophies: player.highest_trophies,
                profile_icon: 0,
                room_id: 0,
                last_connection_time: 0,
                player_status: 0,
                region: player.region.clone(),
                control_mode: player.control_mode,
                has_battle_hints: false,
                unlocked_brawlers: copy_brawlers(&player.unlocked_brawlers),
                coins_reward: player.coins_reward,
                event_count: player.event_count,
            },
        )
    }
}

} // verus!
