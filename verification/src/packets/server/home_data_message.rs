//! The state of a player's home screen, sent once a login went through.

use crate::database::PlayerInfo;
use crate::packets::packet::{Field, FieldWriter, ServerPacket};
use crate::player::{lists_table, table_entries, BrawlerData, Player, PlayerView};
use crate::settings::Settings;
use std::collections::HashMap;
use vstd::prelude::*;

verus! {

broadcast use vstd::std_specs::hash::group_hash_axioms;

/// Highest rank for which the trophy ceiling still fits 32 bits.
pub const MAX_RANK_LIMIT: u32 = 85_899_355;

/// Most events that a player's record may announce.
pub const MAX_EVENTS: i32 = 4;

/// Trophies needed for each of the first 34 ranks.
pub open spec fn rank_trophies() -> Seq<u32> {
    seq![
        0,
        10,
        20,
        30,
        40,
        60,
        80,
        100,
        120,
        140,
        160,
        180,
        220,
        260,
        300,
        340,
        380,
        420,
        460,
        500,
        550,
        600,
        650,
        700,
        750,
        800,
        850,
        900,
        950,
        1000,
        1050,
        1100,
        1150,
        1200,
    ]
}

/// Trophies at which a fighter reaches the rank `max_rank`: the table's
/// entry up to rank 34, and 50 more for every rank beyond.
pub open spec fn trophy_cap(max_rank: u32) -> int {
    if max_rank <= 34 {
        rank_trophies()[max_rank - 1] as int
    } else {
        1200 + 50 * (max_rank - 34)
    }
}

/// Wins that each event slot asks for.
pub open spec fn required_wins() -> Seq<i32> {
    seq![0, 3, 5, 8]
}

/// `count` consecutive numbers from `from` on, each as a variable-length integer.
pub open spec fn vint_run(from: int, count: nat) -> Seq<Field> {
    Seq::new(count, |i: int| Field::VInt((from + i) as i32))
}

/// The identifiers `ids` as objects of the class `class_id`.
pub open spec fn sc_ids(class_id: i32, ids: Seq<i32>) -> Seq<Field> {
    Seq::new(ids.len(), |i: int| Field::ScId(class_id, ids[i]))
}

/// For each pair, an object of the class `class_id` and a number that goes with it.
pub open spec fn pair_fields(class_id: i32, pairs: Seq<(i32, i32)>) -> Seq<Field>
    decreases pairs.len(),
{
    if pairs.len() == 0 {
        Seq::empty()
    } else {
        pair_fields(class_id, pairs.drop_last()) + seq![
            Field::ScId(class_id, pairs.last().0),
            Field::VInt(pairs.last().1),
        ]
    }
}

/// The entries of `values` that are not zero, in order.
pub open spec fn non_zero(values: Seq<i32>) -> Seq<i32>
    decreases values.len(),
{
    if values.len() == 0 {
        Seq::empty()
    } else if values.last() != 0 {
        non_zero(values.drop_last()).push(values.last())
    } else {
        non_zero(values.drop_last())
    }
}

/// The skin that each fighter wears, for the fighters that wear one.
pub open spec fn selected_skins(brawlers: Seq<(i32, &BrawlerData)>) -> Seq<i32> {
    non_zero(Seq::new(brawlers.len(), |i: int| brawlers[i].1.selected))
}

/// The skins that the fighters own, fighter by fighter.
pub open spec fn owned_skins(brawlers: Seq<(i32, &BrawlerData)>) -> Seq<i32>
    decreases brawlers.len(),
{
    if brawlers.len() == 0 {
        Seq::empty()
    } else {
        owned_skins(brawlers.drop_last()) + non_zero(brawlers.last().1.skins@)
    }
}

/// The event slots 1 to `count` with the wins that each asks for.
pub open spec fn slot_fields(count: int) -> Seq<Field>
    decreases count,
{
    if count <= 0 {
        Seq::empty()
    } else {
        slot_fields(count - 1) + seq![
            Field::VInt(count as i32),
            Field::VInt(required_wins()[count - 1]),
        ]
    }
}

/// The events 1 to `count` of one rotation. They differ in their number only.
pub open spec fn event_fields(count: int, seed: i32, mode: i32, title: Seq<char>) -> Seq<Field>
    decreases count,
{
    if count <= 0 {
        Seq::empty()
    } else {
        event_fields(count - 1, seed, mode, title) + seq![
            Field::VInt(count as i32),
            Field::VInt(count as i32),
            Field::VInt(seed),
            Field::VInt(39120),
            Field::VInt(8),
            Field::VInt(8),
            Field::VInt(999),
            Field::Boolean(false),
            Field::Boolean(count - 1 == 4),
            Field::ScId(15, mode),
            Field::VInt(0),
            Field::VInt(2),
            Field::Str(Some(title)),
            Field::Boolean(false),
        ]
    }
}

/// Trophies, experience and icon, and the seven fixed settings that follow them.
pub open spec fn head_fields(player: PlayerView) -> Seq<Field> {
    seq![
        Field::VInt(2017189),
        Field::VInt(10),
        Field::VInt(player.trophies as i32),
        Field::VInt(player.highest_trophies as i32),
        Field::VInt(0),
        Field::VInt(player.player_experience as i32),
        Field::ScId(28, player.profile_icon as i32),
        Field::VInt(7),
    ] + vint_run(0, 7)
}

/// The skins in use and the skins owned, each list behind its length.
pub open spec fn skin_fields(brawlers: Seq<(i32, &BrawlerData)>) -> Seq<Field> {
    seq![Field::VInt(selected_skins(brawlers).len() as i32)] + sc_ids(29, selected_skins(brawlers))
        + seq![Field::VInt(owned_skins(brawlers).len() as i32)] + sc_ids(
        29,
        owned_skins(brawlers),
    )
}

/// The player's preferences.
pub open spec fn preference_fields(player: PlayerView) -> Seq<Field> {
    seq![
        Field::Boolean(true),
        Field::VInt(0),
        Field::VInt(player.coins_reward),
        Field::Boolean(false),
        Field::VInt(player.control_mode as i32),
        Field::Boolean(player.has_battle_hints),
        Field::VInt(player.coins_doubler as i32),
        Field::VInt(0),
        Field::VInt(0),
        Field::Boolean(false),
        Field::VLong(0, 1),
        Field::VLong(0, 1),
        Field::VLong(0, 1),
        Field::VLong(0, 1),
        Field::ScId(0, 1),
        Field::VInt(0),
        Field::Boolean(true),
        Field::Boolean(true),
    ]
}

/// The constants of the shop and the season, with the trophy ceiling `cap`
/// among them.
pub open spec fn season_fields(cap: u32) -> Seq<Field> {
    seq![
        Field::VInt(2017189),
        Field::VInt(100),
        Field::VInt(10),
        Field::VInt(80),
        Field::VInt(10),
        Field::VInt(20),
        Field::VInt(50),
        Field::VInt(50),
        Field::VInt(1000),
        Field::VInt(168),
        Field::VInt(cap as i32),
        Field::VInt(50),
        Field::VInt(9999),
        Field::VIntArray(seq![1, 2, 5, 10, 20, 60]),
        Field::VIntArray(seq![3, 10, 20, 60, 200, 500]),
        Field::VIntArray(seq![0, 30, 80, 170, 0, 0]),
    ]
}

/// The player's preferences and the constants of the shop and the season.
pub open spec fn shop_fields(player: PlayerView, cap: u32) -> Seq<Field> {
    preference_fields(player) + season_fields(cap)
}

/// The event slots, the running events and the four events that come next.
pub open spec fn rotation_fields(event_count: i32) -> Seq<Field> {
    seq![Field::VInt(event_count)] + slot_fields(event_count as int) + seq![
        Field::VInt(event_count),
    ] + event_fields(event_count as int, 1, 2, "deuce server v1.01"@) + seq![Field::VInt(4)]
        + event_fields(4, 1337, 3, "deuce server v1.01 (2)"@)
}

/// The five upgrade levels, the milestones, and who the player is.
pub open spec fn identity_fields(player: PlayerView, milestones: Seq<u8>) -> Seq<Field> {
    seq![Field::VInt(5)] + vint_run(1, 5) + seq![
        Field::Raw(milestones),
        Field::Long(player.high_id as i32, player.low_id as i32),
        Field::VInt(0),
        Field::VLong(player.high_id as i32, player.low_id as i32),
        Field::VLong(player.high_id as i32, player.low_id as i32),
        Field::VLong(player.high_id as i32, player.low_id as i32),
        Field::Str(Some(player.name)),
        Field::Boolean(player.name != "Brawler"@),
        Field::Int(1),
        Field::VInt(5),
    ]
}

/// The cards and the three resources, behind their common count.
pub open spec fn card_fields(player: PlayerView, cards: Seq<(i32, i32)>) -> Seq<Field> {
    seq![Field::VInt((cards.len() + 3) as i32)] + pair_fields(23, cards) + seq![
        Field::ScId(5, 1),
        Field::VInt(player.gold as i32),
        Field::ScId(5, 5),
        Field::VInt(player.chips as i32),
        Field::ScId(5, 6),
        Field::VInt(player.elixir as i32),
    ]
}

/// Each fighter with its trophies.
pub open spec fn trophies_of(brawlers: Seq<(i32, &BrawlerData)>) -> Seq<(i32, i32)> {
    Seq::new(brawlers.len(), |i: int| (brawlers[i].0, brawlers[i].1.trophies))
}

/// Each fighter with the most trophies it ever had.
pub open spec fn highest_trophies_of(brawlers: Seq<(i32, &BrawlerData)>) -> Seq<(i32, i32)> {
    Seq::new(brawlers.len(), |i: int| (brawlers[i].0, brawlers[i].1.highest_trophies))
}

/// Each fighter as unlocked.
pub open spec fn unlocked_states_of(brawlers: Seq<(i32, &BrawlerData)>) -> Seq<(i32, i32)> {
    Seq::new(brawlers.len(), |i: int| (brawlers[i].0, 2i32))
}

/// A list of pairs behind its length.
pub open spec fn counted_pairs(class_id: i32, pairs: Seq<(i32, i32)>) -> Seq<Field> {
    seq![Field::VInt(pairs.len() as i32)] + pair_fields(class_id, pairs)
}

/// The gems and the constants that close the message.
pub open spec fn closing_fields(player: PlayerView) -> Seq<Field> {
    seq![
        Field::VInt(player.gems as i32),
        Field::VInt(13),
        Field::VInt(0),
        Field::VInt(0),
        Field::VInt(0),
        Field::VInt(0),
        Field::VInt(0),
        Field::VInt(0),
        Field::VInt(0),
        Field::VInt(0),
        Field::VInt(2),
        Field::VInt(2017189),
    ]
}

/// The fighters three times over: with their trophies, with their highest
/// trophies and, behind an empty list, with their state.
pub open spec fn brawler_fields(brawlers: Seq<(i32, &BrawlerData)>) -> Seq<Field> {
    counted_pairs(16, trophies_of(brawlers)) + counted_pairs(16, highest_trophies_of(brawlers))
        + seq![Field::VInt(0)] + counted_pairs(16, unlocked_states_of(brawlers))
}

/// The whole message about `player`, whose fighters and cards are sent in
/// the order of `brawlers` and `cards`.
pub open spec fn home_fields(
    player: PlayerView,
    brawlers: Seq<(i32, &BrawlerData)>,
    cards: Seq<(i32, i32)>,
    cap: u32,
    milestones: Seq<u8>,
) -> Seq<Field> {
    head_fields(player) + skin_fields(brawlers) + shop_fields(player, cap) + rotation_fields(
        player.event_count,
    ) + identity_fields(player, milestones) + card_fields(player, cards) + brawler_fields(
        brawlers,
    ) + closing_fields(player)
}

/// The cards of all fighters with their amounts. Of a card that several
/// fighters hold, the amount of the last of them in `brawlers` counts.
pub open spec fn merged_cards(brawlers: Seq<(i32, &BrawlerData)>) -> Map<i32, i32>
    decreases brawlers.len(),
{
    if brawlers.len() == 0 {
        Map::empty()
    } else {
        merged_cards(brawlers.drop_last()).union_prefer_right(brawlers.last().1.cards@)
    }
}

/// `cards` lists the cards of `brawlers`: every card that a fighter holds,
/// once, with its amount, in some order.
pub open spec fn lists_cards(cards: Seq<(i32, i32)>, brawlers: Seq<(i32, &BrawlerData)>) -> bool {
    let table = merged_cards(brawlers);
    &&& cards.len() == table.dom().len()
    &&& forall|i: int|
        0 <= i < cards.len() ==> table.contains_key(#[trigger] cards[i].0) && table[cards[i].0]
            == cards[i].1
    &&& forall|i: int, j: int| 0 <= i < j < cards.len() ==> cards[i].0 != cards[j].0
    &&& forall|card: i32|
        table.contains_key(card) ==> exists|i: int|
            0 <= i < cards.len() && (#[trigger] cards[i]).0 == card
}

/// Trophies at which a fighter reaches the rank `max_rank`.
pub fn brawlers_trophies(max_rank: u32) -> (cap: u32)
    requires
        1 <= max_rank <= MAX_RANK_LIMIT,
    ensures
        cap == trophy_cap(max_rank),
{
    let trophies: [u32; 34] = [
        0,
        10,
        20,
        30,
        40,
        60,
        80,
        100,
        120,
        140,
        160,
        180,
        220,
        260,
        300,
        340,
        380,
        420,
        460,
        500,
        550,
        600,
        650,
        700,
        750,
        800,
        850,
        900,
        950,
        1000,
        1050,
        1100,
        1150,
        1200,
    ];
    assert(trophies@ =~= rank_trophies());
    if max_rank <= 34 {
        trophies[(max_rank - 1) as usize]
    } else {
        trophies[33] + 50 * (max_rank - 34)
    }
}

/// Gathers the cards of all fighters. Where two fighters hold the same card,
/// the amount of the later one in `brawlers` is taken.
pub fn collect_cards(brawlers: &Vec<(i32, &BrawlerData)>) -> (cards: Vec<(i32, i32)>)
    ensures
        lists_cards(cards@, brawlers@),
{
    let mut merged: HashMap<i32, i32> = HashMap::new();
    let mut b: usize = 0;
    assert(merged@ =~= merged_cards(brawlers@.take(0)));
    while b < brawlers.len()
        invariant
            b <= brawlers.len(),
            merged@ == merged_cards(brawlers@.take(b as int)),
        decreases brawlers.len() - b,
    {
        let owned = table_entries(&brawlers[b].1.cards);
        let ghost held = brawlers@[b as int].1.cards@;
        let ghost base = merged@;
        let ghost mut done: Set<i32> = Set::empty();
        let mut c: usize = 0;
        assert(merged@ =~= base.union_prefer_right(held.restrict(done)));
        while c < owned.len()
            invariant
                c <= owned.len(),
                lists_table(owned@, held),
                forall|j: int| 0 <= j < c ==> done.contains(#[trigger] owned@[j].0),
                merged@ == base.union_prefer_right(held.restrict(done)),
            decreases owned.len() - c,
        {
            let card = owned[c].0;
            let amount = *owned[c].1;
            merged.insert(card, amount);
            proof {
                assert(held.contains_key(owned@[c as int].0));
                assert(merged@ =~= base.union_prefer_right(held.restrict(done.insert(card))));
                done = done.insert(card);
            }
            c += 1;
        }
        proof {
            let next = brawlers@.take(b + 1);
            assert(next.drop_last() =~= brawlers@.take(b as int));
            assert(next.last() == brawlers@[b as int]);
            assert forall|card: i32| held.contains_key(card) implies done.contains(card) by {
                let j = choose|j: int| 0 <= j < owned@.len() && (#[trigger] owned@[j]).0 == card;
                assert(done.contains(owned@[j].0));
            }
            assert(held.restrict(done) =~= held);
        }
        b += 1;
    }
    assert(brawlers@.take(brawlers@.len() as int) =~= brawlers@);
    let walked = table_entries(&merged);
    let mut cards: Vec<(i32, i32)> = Vec::new();
    let mut i: usize = 0;
    while i < walked.len()
        invariant
            i <= walked.len(),
            cards@.len() == i,
            forall|j: int| 0 <= j < i ==> #[trigger] cards@[j] == (walked@[j].0, *walked@[j].1),
        decreases walked.len() - i,
    {
        cards.push((walked[i].0, *walked[i].1));
        i += 1;
    }
    proof {
        assert forall|j: int| 0 <= j < cards@.len() implies merged@.contains_key(
            #[trigger] cards@[j].0,
        ) && merged@[cards@[j].0] == cards@[j].1 by {
            assert(merged@.contains_key(walked@[j].0));
        }
        assert forall|card: i32| merged@.contains_key(card) implies exists|j: int|
            0 <= j < cards@.len() && (#[trigger] cards@[j]).0 == card by {
            let j = choose|j: int| 0 <= j < walked@.len() && (#[trigger] walked@[j]).0 == card;
            assert(cards@[j].0 == card);
        }
        assert forall|j: int, k: int| 0 <= j < k < cards@.len() implies cards@[j].0
            != cards@[k].0 by {
            assert(walked@[j].0 != walked@[k].0);
        }
    }
    cards
}

/// What a player's home screen shows: trophies and resources, fighters,
/// skins and cards, and the events that run.
pub struct HomeDataMessage<'a> {
    pub id: u16,
    /// The player of this connection. Encoding the message loads the stored
    /// record into it.
    pub player: &'a mut Player,
    /// The stored record of the player.
    pub info: &'a PlayerInfo,
    pub settings: &'a Settings,
    /// The fighters of the stored record, in the order in which they are sent.
    pub brawlers: Vec<(i32, &'a BrawlerData)>,
    /// The cards of all fighters, in the order in which they are sent.
    pub cards: Vec<(i32, i32)>,
    /// The milestones of the season, already encoded. They are put into the
    /// message as they are.
    pub milestones: Vec<u8>,
}

impl<'a> HomeDataMessage<'a> {
    /// Prepares the message about the stored record `info`. The record's
    /// table of fighters is walked here, once, which fixes the order in which
    /// fighters and cards are sent.
    pub fn new(player: &'a mut Player, info: &'a PlayerInfo, settings: &'a Settings) -> (message:
        Self)
        ensures
            message.id == 24101,
            *message.player == *old(player),
            *final(message.player) == *final(player),
            message.info == info,
            message.settings == settings,
            message.milestones@ == Seq::<u8>::empty(),
            lists_table(message.brawlers@, info.unlocked_brawlers@),
            lists_cards(message.cards@, message.brawlers@),
    {
        let brawlers = table_entries(&info.unlocked_brawlers);
        let cards = collect_cards(&brawlers);
        Self { id: 24101, player, info, settings, brawlers, cards, milestones: Vec::new() }
    }

    /// The player after the message was encoded: the stored record is loaded,
    /// the player is at home, and the pending coin reward is handed out.
    pub open spec fn player_after(&self) -> PlayerView {
        PlayerView { player_status: 2, coins_reward: 0, ..self.player@.loaded(self.info@) }
    }
}

impl<'a> ServerPacket for HomeDataMessage<'a> {
    /// The rank ceiling has a trophy count that fits 32 bits, and the record
    /// announces no more events than there are slots.
    open spec fn encodable(&self) -> bool {
        &&& 1 <= self.settings.max_rank <= MAX_RANK_LIMIT
        &&& self.info.event_count <= MAX_EVENTS
    }

    open spec fn fields(&self) -> Seq<Field> {
        home_fields(
            self.player@.loaded(self.info@),
            self.brawlers@,
            self.cards@,
            trophy_cap(self.settings.max_rank) as u32,
            self.milestones@,
        )
    }

    fn encode(&mut self) -> (bytes: Vec<u8>)
        ensures
            (*final(self).player)@ == old(self).player_after(),
            *final(final(self).player) == *final(old(self).player),
            final(self).id == old(self).id,
            final(self).info == old(self).info,
            final(self).settings == old(self).settings,
            final(self).brawlers == old(self).brawlers,
            final(self).cards == old(self).cards,
            final(self).milestones == old(self).milestones,
    {
        let mut writer = FieldWriter::new();

        self.player.load(self.info);
        self.player.player_status = 2;
        let ghost player = self.player@;

        let cap = brawlers_trophies(self.settings.max_rank);

        put_head(&mut writer, self.player);
        put_skins(&mut writer, &self.brawlers);
        put_shop(&mut writer, self.player, cap);
        put_rotation(&mut writer, self.player.event_count);
        put_identity(&mut writer, self.player, self.milestones.as_slice());
        put_cards(&mut writer, self.player, &self.cards);
        put_brawlers(&mut writer, &self.brawlers);
        put_closing(&mut writer, self.player);

        self.player.coins_reward = 0;

        proof {
            let loaded = old(self).player@.loaded(old(self).info@);
            assert(head_fields(player) == head_fields(loaded));
            assert(shop_fields(player, cap) == shop_fields(loaded, cap));
            assert(identity_fields(player, self.milestones@) == identity_fields(
                loaded,
                self.milestones@,
            ));
            assert(card_fields(player, self.cards@) == card_fields(loaded, self.cards@));
            assert(closing_fields(player) == closing_fields(loaded));
            assert(writer.fields@ =~= old(self).fields());
        }
        writer.finish()
    }
}

fn put_run(writer: &mut FieldWriter, from: i32, count: i32)
    requires
        old(writer).wf(),
        0 <= from,
        0 <= count,
        from + count <= i32::MAX,
    ensures
        final(writer).wf(),
        final(writer).fields@ == old(writer).fields@ + vint_run(from as int, count as nat),
{
    let mut x: i32 = 0;
    while x < count
        invariant
            0 <= x <= count,
            from + count <= i32::MAX,
            0 <= from,
            writer.wf(),
            writer.fields@ == old(writer).fields@ + vint_run(from as int, x as nat),
        decreases count - x,
    {
        writer.put_vint(from + x);
        assert(writer.fields@ =~= old(writer).fields@ + vint_run(from as int, (x + 1) as nat));
        x += 1;
    }
}

fn put_sc_ids(writer: &mut FieldWriter, class_id: i32, ids: &Vec<i32>)
    requires
        old(writer).wf(),
    ensures
        final(writer).wf(),
        final(writer).fields@ == old(writer).fields@ + sc_ids(class_id, ids@),
{
    let mut i: usize = 0;
    while i < ids.len()
        invariant
            i <= ids.len(),
            writer.wf(),
            writer.fields@ == old(writer).fields@ + sc_ids(class_id, ids@.take(i as int)),
        decreases ids.len() - i,
    {
        writer.put_sc_id(class_id, ids[i]);
        assert(writer.fields@ =~= old(writer).fields@ + sc_ids(class_id, ids@.take(i + 1)));
        i += 1;
    }
    assert(ids@.take(ids@.len() as int) =~= ids@);
}

fn put_pairs(writer: &mut FieldWriter, class_id: i32, pairs: &Vec<(i32, i32)>)
    requires
        old(writer).wf(),
    ensures
        final(writer).wf(),
        final(writer).fields@ == old(writer).fields@ + pair_fields(class_id, pairs@),
{
    let mut i: usize = 0;
    while i < pairs.len()
        invariant
            i <= pairs.len(),
            writer.wf(),
            writer.fields@ == old(writer).fields@ + pair_fields(class_id, pairs@.take(i as int)),
        decreases pairs.len() - i,
    {
        writer.put_sc_id(class_id, pairs[i].0);
        writer.put_vint(pairs[i].1);
        proof {
            let next = pairs@.take(i + 1);
            assert(next.drop_last() =~= pairs@.take(i as int));
            assert(writer.fields@ =~= old(writer).fields@ + pair_fields(class_id, next));
        }
        i += 1;
    }
    assert(pairs@.take(pairs@.len() as int) =~= pairs@);
}

/// Appends to `found` the entries of `values` that are not zero.
fn push_non_zero(found: &mut Vec<i32>, values: &Vec<i32>)
    ensures
        final(found)@ == old(found)@ + non_zero(values@),
{
    let mut i: usize = 0;
    while i < values.len()
        invariant
            i <= values.len(),
            found@ == old(found)@ + non_zero(values@.take(i as int)),
        decreases values.len() - i,
    {
        proof {
            let next = values@.take(i + 1);
            assert(next.drop_last() =~= values@.take(i as int));
            assert(next.last() == values@[i as int]);
        }
        if values[i] != 0 {
            found.push(values[i]);
            assert(found@ =~= old(found)@ + non_zero(values@.take(i + 1)));
        }
        i += 1;
    }
    assert(values@.take(values@.len() as int) =~= values@);
}

fn put_head(writer: &mut FieldWriter, player: &Player)
    requires
        old(writer).wf(),
    ensures
        final(writer).wf(),
        final(writer).fields@ == old(writer).fields@ + head_fields(player@),
{
    writer.put_vint(2017189);
    writer.put_vint(10);

    writer.put_vint(player.trophies as i32);
    writer.put_vint(player.highest_trophies as i32);
    writer.put_vint(0);
    writer.put_vint(player.player_experience as i32);

    writer.put_sc_id(28, player.profile_icon as i32);

    writer.put_vint(7);
    put_run(writer, 0, 7);
    assert(writer.fields@ =~= old(writer).fields@ + head_fields(player@));
}

fn put_skins(writer: &mut FieldWriter, brawlers: &Vec<(i32, &BrawlerData)>)
    requires
        old(writer).wf(),
    ensures
        final(writer).wf(),
        final(writer).fields@ == old(writer).fields@ + skin_fields(brawlers@),
{
    let mut selected: Vec<i32> = Vec::new();
    let mut owned: Vec<i32> = Vec::new();
    let mut i: usize = 0;
    while i < brawlers.len()
        invariant
            i <= brawlers.len(),
            selected@ == selected_skins(brawlers@.take(i as int)),
            owned@ == owned_skins(brawlers@.take(i as int)),
        decreases brawlers.len() - i,
    {
        proof {
            let before = brawlers@.take(i as int);
            let next = brawlers@.take(i + 1);
            assert(next.drop_last() =~= before);
            assert(next.last() == brawlers@[i as int]);
            let worn = Seq::new(next.len(), |k: int| next[k].1.selected);
            assert(worn.drop_last() =~= Seq::new(before.len(), |k: int| before[k].1.selected));
            assert(worn.last() == brawlers@[i as int].1.selected);
        }
        if brawlers[i].1.selected != 0 {
            selected.push(brawlers[i].1.selected);
        }
        push_non_zero(&mut owned, &brawlers[i].1.skins);
        i += 1;
    }
    assert(brawlers@.take(brawlers@.len() as int) =~= brawlers@);

    writer.put_vint(selected.len() as i32);
    put_sc_ids(writer, 29, &selected);
    writer.put_vint(owned.len() as i32);
    put_sc_ids(writer, 29, &owned);
    assert(writer.fields@ =~= old(writer).fields@ + skin_fields(brawlers@));
}

fn put_preferences(writer: &mut FieldWriter, player: &Player)
    requires
        old(writer).wf(),
    ensures
        final(writer).wf(),
        final(writer).fields@ == old(writer).fields@ + preference_fields(player@),
{
    let ghost preferences = preference_fields(player@);
    writer.put_boolean(true);
    writer.put_vint(0);

    writer.put_vint(player.coins_reward);
    writer.put_boolean(false);
    writer.put_vint(player.control_mode as i32);
    writer.put_boolean(player.has_battle_hints);
    writer.put_vint(player.coins_doubler as i32);

    writer.put_vint(0);
    writer.put_vint(0);
    writer.put_boolean(false);

    writer.put_vlong(0, 1);
    writer.put_vlong(0, 1);
    writer.put_vlong(0, 1);
    writer.put_vlong(0, 1);

    writer.put_sc_id(0, 1);

    writer.put_vint(0);

    writer.put_boolean(true);
    writer.put_boolean(true);
    assert(writer.fields@ =~= old(writer).fields@ + preferences);
}

fn put_season(writer: &mut FieldWriter, cap: u32)
    requires
        old(writer).wf(),
    ensures
        final(writer).wf(),
        final(writer).fields@ == old(writer).fields@ + season_fields(cap),
{
    writer.put_vint(2017189);

    writer.put_vint(100);
    writer.put_vint(10);
    writer.put_vint(80);
    writer.put_vint(10);
    writer.put_vint(20);
    writer.put_vint(50);
    writer.put_vint(50);
    writer.put_vint(1000);
    writer.put_vint(7 * 24);
    writer.put_vint(cap as i32);
    writer.put_vint(50);
    writer.put_vint(9999);

    let wins = vec![1, 2, 5, 10, 20, 60];
    let coins = vec![3, 10, 20, 60, 200, 500];
    let bonus = vec![0, 30, 80, 170, 0, 0];
    assert(wins@ =~= seq![1, 2, 5, 10, 20, 60]);
    assert(coins@ =~= seq![3, 10, 20, 60, 200, 500]);
    assert(bonus@ =~= seq![0, 30, 80, 170, 0, 0]);
    writer.put_array_vint(wins);
    writer.put_array_vint(coins);
    writer.put_array_vint(bonus);
    assert(writer.fields@ =~= old(writer).fields@ + season_fields(cap));
}

fn put_shop(writer: &mut FieldWriter, player: &Player, cap: u32)
    requires
        old(writer).wf(),
    ensures
        final(writer).wf(),
        final(writer).fields@ == old(writer).fields@ + shop_fields(player@, cap),
{
    put_preferences(writer, player);
    put_season(writer, cap);
    assert(writer.fields@ =~= old(writer).fields@ + shop_fields(player@, cap));
}

fn put_slots(writer: &mut FieldWriter, event_count: i32)
    requires
        old(writer).wf(),
        event_count <= MAX_EVENTS,
    ensures
        final(writer).wf(),
        final(writer).fields@ == old(writer).fields@ + slot_fields(event_count as int),
{
    let required: [i32; 4] = [0, 3, 5, 8];
    assert(required@ =~= required_wins());
    let mut event: i32 = 0;
    while event < event_count
        invariant
            0 <= event,
            event == 0 || event <= event_count,
            event_count <= MAX_EVENTS,
            required@ == required_wins(),
            writer.wf(),
            writer.fields@ == old(writer).fields@ + slot_fields(event as int),
        decreases event_count - event,
    {
        writer.put_vint(event + 1);
        writer.put_vint(required[event as usize]);
        assert(writer.fields@ =~= old(writer).fields@ + slot_fields(event + 1));
        event += 1;
    }
    assert(slot_fields(event_count as int) =~= slot_fields(event as int)) by {
        if event_count < 0 {
            assert(event == 0);
        }
    }
}

fn put_events(writer: &mut FieldWriter, event_count: i32, seed: i32, mode: i32, title: &str)
    requires
        old(writer).wf(),
        event_count <= MAX_EVENTS,
    ensures
        final(writer).wf(),
        final(writer).fields@ == old(writer).fields@ + event_fields(
            event_count as int,
            seed,
            mode,
            title@,
        ),
{
    let mut event: i32 = 0;
    while event < event_count
        invariant
            0 <= event,
            event == 0 || event <= event_count,
            event_count <= MAX_EVENTS,
            writer.wf(),
            writer.fields@ == old(writer).fields@ + event_fields(event as int, seed, mode, title@),
        decreases event_count - event,
    {
        writer.put_vint(event + 1);
        writer.put_vint(event + 1);

        writer.put_vint(seed);
        writer.put_vint(39120);
        writer.put_vint(8);
        writer.put_vint(8);
        writer.put_vint(999);

        writer.put_boolean(false);
        writer.put_boolean(event == 4);

        writer.put_sc_id(15, mode);

        writer.put_vint(0);
        writer.put_vint(2);

        writer.put_string(Some(title));
        writer.put_boolean(false);
        assert(writer.fields@ =~= old(writer).fields@ + event_fields(
            event + 1,
            seed,
            mode,
            title@,
        ));
        event += 1;
    }
    assert(event_fields(event_count as int, seed, mode, title@) =~= event_fields(
        event as int,
        seed,
        mode,
        title@,
    )) by {
        if event_count < 0 {
            assert(event == 0);
        }
    }
}

fn put_rotation(writer: &mut FieldWriter, event_count: i32)
    requires
        old(writer).wf(),
        event_count <= MAX_EVENTS,
    ensures
        final(writer).wf(),
        final(writer).fields@ == old(writer).fields@ + rotation_fields(event_count),
{
    writer.put_vint(event_count);
    put_slots(writer, event_count);
    writer.put_vint(event_count);
    put_events(writer, event_count, 1, 2, "deuce server v1.01");
    writer.put_vint(4);
    put_events(writer, 4, 1337, 3, "deuce server v1.01 (2)");
    assert(writer.fields@ =~= old(writer).fields@ + rotation_fields(event_count));
}

fn put_identity(writer: &mut FieldWriter, player: &Player, milestones: &[u8])
    requires
        old(writer).wf(),
    ensures
        final(writer).wf(),
        final(writer).fields@ == old(writer).fields@ + identity_fields(player@, milestones@),
{
    let max_upgrade_level: i32 = 5;
    writer.put_vint(max_upgrade_level);
    put_run(writer, 1, max_upgrade_level);

    writer.put_raw(milestones);

    writer.put_long(player.high_id as i32, player.low_id as i32);
    writer.put_vint(0);

    writer.put_vlong(player.high_id as i32, player.low_id as i32);
    writer.put_vlong(player.high_id as i32, player.low_id as i32);
    writer.put_vlong(player.high_id as i32, player.low_id as i32);

    let renamed = !(player.name == "Brawler".to_owned());
    writer.put_string(Some(player.name.as_str()));
    writer.put_boolean(renamed);
    writer.put_int(1);

    writer.put_vint(5);
    assert(writer.fields@ =~= old(writer).fields@ + identity_fields(player@, milestones@));
}

fn put_cards(writer: &mut FieldWriter, player: &Player, cards: &Vec<(i32, i32)>)
    requires
        old(writer).wf(),
    ensures
        final(writer).wf(),
        final(writer).fields@ == old(writer).fields@ + card_fields(player@, cards@),
{
    writer.put_vint((cards.len() as u128 + 3) as i32);
    put_pairs(writer, 23, cards);

    writer.put_sc_id(5, 1);
    writer.put_vint(player.gold as i32);
    writer.put_sc_id(5, 5);
    writer.put_vint(player.chips as i32);
    writer.put_sc_id(5, 6);
    writer.put_vint(player.elixir as i32);
    assert(writer.fields@ =~= old(writer).fields@ + card_fields(player@, cards@));
}

/// Pairs every fighter with its trophies, with its highest trophies and
/// with the state of an unlocked fighter.
fn brawler_pairs(brawlers: &Vec<(i32, &BrawlerData)>) -> (pairs: (
    Vec<(i32, i32)>,
    Vec<(i32, i32)>,
    Vec<(i32, i32)>,
))
    ensures
        pairs.0@ == trophies_of(brawlers@),
        pairs.1@ == highest_trophies_of(brawlers@),
        pairs.2@ == unlocked_states_of(brawlers@),
{
    let mut trophies: Vec<(i32, i32)> = Vec::new();
    let mut highest: Vec<(i32, i32)> = Vec::new();
    let mut states: Vec<(i32, i32)> = Vec::new();
    let mut i: usize = 0;
    while i < brawlers.len()
        invariant
            i <= brawlers.len(),
            trophies@ == trophies_of(brawlers@.take(i as int)),
            highest@ == highest_trophies_of(brawlers@.take(i as int)),
            states@ == unlocked_states_of(brawlers@.take(i as int)),
        decreases brawlers.len() - i,
    {
        trophies.push((brawlers[i].0, brawlers[i].1.trophies));
        highest.push((brawlers[i].0, brawlers[i].1.highest_trophies));
        states.push((brawlers[i].0, 2));
        proof {
            let next = brawlers@.take(i + 1);
            assert(trophies@ =~= trophies_of(next));
            assert(highest@ =~= highest_trophies_of(next));
            assert(states@ =~= unlocked_states_of(next));
        }
        i += 1;
    }
    assert(brawlers@.take(brawlers@.len() as int) =~= brawlers@);
    (trophies, highest, states)
}

fn put_counted_pairs(writer: &mut FieldWriter, class_id: i32, pairs: &Vec<(i32, i32)>)
    requires
        old(writer).wf(),
    ensures
        final(writer).wf(),
        final(writer).fields@ == old(writer).fields@ + counted_pairs(class_id, pairs@),
{
    writer.put_vint(pairs.len() as i32);
    put_pairs(writer, class_id, pairs);
    assert(writer.fields@ =~= old(writer).fields@ + counted_pairs(class_id, pairs@));
}

fn put_brawlers(writer: &mut FieldWriter, brawlers: &Vec<(i32, &BrawlerData)>)
    requires
        old(writer).wf(),
    ensures
        final(writer).wf(),
        final(writer).fields@ == old(writer).fields@ + brawler_fields(brawlers@),
{
    let (trophies, highest, states) = brawler_pairs(brawlers);
    put_counted_pairs(writer, 16, &trophies);
    put_counted_pairs(writer, 16, &highest);
    writer.put_vint(0);
    put_counted_pairs(writer, 16, &states);
    assert(writer.fields@ =~= old(writer).fields@ + brawler_fields(brawlers@));
}

fn put_closing(writer: &mut FieldWriter, player: &Player)
    requires
        old(writer).wf(),
    ensures
        final(writer).wf(),
        final(writer).fields@ == old(writer).fields@ + closing_fields(player@),
{
    writer.put_vint(player.gems as i32);
    writer.put_vint(13);

    writer.put_vint(0);
    writer.put_vint(0);
    writer.put_vint(0);
    writer.put_vint(0);
    writer.put_vint(0);
    writer.put_vint(0);
    writer.put_vint(0);
    writer.put_vint(0);

    writer.put_vint(2);
    writer.put_vint(2017189);
    assert(writer.fields@ =~= old(writer).fields@ + closing_fields(player@));
}

} // verus!
