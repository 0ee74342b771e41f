//! Saving a game to bytes and loading it back.

use vstd::prelude::*;

use crate::casts;
use crate::data::DataError;
use crate::gamedata;
use crate::gamedata::GameData;
use crate::global;
use crate::global::Globals;
use crate::inventory;
use crate::playtime;
use crate::records::{EventObject, GameObject, Inventory, Party, PoisonStatus, Scene, Trail};
use crate::roles::{AllExperience, PlayerRoles};
use crate::wordio;
use crate::wordio::{WordReader, WordWriter};

verus! {

/// The size of a saved game without its event objects.
pub const MIN_SAVE_SIZE: usize = 12864;

impl Globals {
    /// Load a game from its saved form. A buffer shorter than the fixed part
    /// of a saved game is refused; missing event objects read as zeros.
    #[verifier::rlimit(60)]
    pub fn load_game_from_bytes(&mut self, buf: &[u8]) -> (r: Result<(), DataError>)
        requires
            old(self).game.addressable(),
        ensures
            r is Ok <==> buf@.len() >= 12864,
            r matches Err(e) ==> e == DataError::SaveTooShort && *final(self) == *old(self),
            r is Ok ==> final(self).loaded_from(buf@) && final(self).same_table_sizes(old(self))
                && final(self).unloaded_part_of(old(self)),
    {
        if buf.len() < MIN_SAVE_SIZE {
            return Err(DataError::SaveTooShort);
        }
        let mut r: WordReader = WordReader::new(buf);
        let _saved_times: u16 = r.u16();
        let viewport_x: u16 = r.u16();
        let viewport_y: u16 = r.u16();
        let party_member: u16 = r.u16();
        let num_scene: u16 = r.u16();
        let palette_offset: u16 = r.u16();
        let party_direction: u16 = r.u16();
        let num_music: u16 = r.u16();
        let num_battle_music: u16 = r.u16();
        let num_battle_field: u16 = r.u16();
        let screen_wave: u16 = r.u16();
        let _battle_speed: u16 = r.u16();
        let collect_value: u16 = r.u16();
        let layer: u16 = r.u16();
        let chase_range: u16 = r.u16();
        let chasespeed_change_cycles: u16 = r.u16();
        let follower_num: u16 = r.u16();
        let _reserved: (u16, u16, u16) = (r.u16(), r.u16(), r.u16());
        let cash: u32 = r.u32();
        assert(r.offset() == 44);

        self.viewport = (viewport_x as i32, viewport_y as i32);
        self.max_party_member_index = party_member;
        self.num_scene = num_scene;
        self.night_palette = palette_offset != 0;
        self.party_direction = party_direction;
        self.num_music = num_music;
        self.num_battle_music = num_battle_music;
        self.num_battle_field = num_battle_field;
        self.screen_wave = screen_wave;
        self.wave_progression = 0;
        self.collect_value = collect_value;
        self.layer = layer;
        self.chase_range = chase_range;
        self.chasespeed_change_cycles = chasespeed_change_cycles;
        self.follower_num = follower_num;
        self.cash = cash;

        self.read_party_and_trail(&mut r);
        self.exp = AllExperience::read(&mut r);
        self.game.player_roles = PlayerRoles::read(&mut r);
        for i in 0..80usize
            invariant
                r.bytes() == buf@,
                r.offset() == 1408 + 4 * i,
        {
            r.u16();
            r.u16();
        }
        let zero_poison: PoisonStatus = PoisonStatus::default();
        self.poison_status = [[zero_poison; 5]; 16];
        self.read_inventory(&mut r);
        let ghost loaded_inventory = self.inventory@;
        assert(loaded_inventory =~= global::stored_inventory(buf@));
        self.read_tables(&mut r);
        self.entering_scene = false;
        self.compress_inventory();
        Ok(())
    }

    fn read_party_and_trail(&mut self, r: &mut WordReader)
        requires
            0 <= old(r).offset() <= usize::MAX - 80,
        ensures
            global::party_at(final(self).party@, old(r).bytes(), old(r).offset()),
            global::trail_at(final(self).trail@, old(r).bytes(), old(r).offset() + 50),
            *final(self) == (Globals { party: final(self).party, trail: final(self).trail, ..*old(self) }),
            final(r).advanced(old(r), 80),
    {
        for i in 0..5usize
            invariant
                0 <= old(r).offset() <= usize::MAX - 80,
                r.advanced(old(r), 10 * i),
                *self == (Globals { party: self.party, ..*old(self) }),
                forall|k: int| 0 <= k < i ==> #[trigger] self.party@[k] == Party::decoded(old(r).bytes(), old(r).offset() + 10 * k),
        {
            self.party[i] = Party::read(r);
        }
        let ghost mid = *self;
        for i in 0..5usize
            invariant
                0 <= old(r).offset() <= usize::MAX - 80,
                r.advanced(old(r), 50 + 6 * i),
                *self == (Globals { trail: self.trail, ..mid }),
                forall|k: int| 0 <= k < i ==> #[trigger] self.trail@[k] == Trail::decoded(old(r).bytes(), old(r).offset() + 50 + 6 * k),
        {
            self.trail[i] = Trail::read(r);
        }
    }

    fn read_inventory(&mut self, r: &mut WordReader)
        requires
            0 <= old(r).offset() <= usize::MAX - 1536,
        ensures
            global::inventory_at(final(self).inventory@, old(r).bytes(), old(r).offset()),
            *final(self) == (Globals { inventory: final(self).inventory, ..*old(self) }),
            final(r).advanced(old(r), 1536),
    {
        for i in 0..256usize
            invariant
                0 <= old(r).offset() <= usize::MAX - 1536,
                r.advanced(old(r), 6 * i),
                *self == (Globals { inventory: self.inventory, ..*old(self) }),
                forall|k: int| 0 <= k < i ==> #[trigger] self.inventory@[k] == Inventory::decoded(old(r).bytes(), old(r).offset() + 6 * k),
        {
            self.inventory[i] = Inventory::read(r);
        }
    }

    fn read_tables(&mut self, r: &mut WordReader)
        requires
            old(self).game.addressable(),
            old(r).offset() == 3264,
        ensures
            gamedata::scenes_at(final(self).game.scenes@, old(r).bytes(), final(self).scenes_offset()),
            gamedata::objects_at(final(self).game.objects@, old(r).bytes(), final(self).objects_offset()),
            gamedata::objects_fresh(final(self).game.objects@),
            gamedata::event_objects_at(final(self).game.event_objects@, old(r).bytes(), final(self).event_objects_offset()),
            final(self).same_table_sizes(old(self)),
            *final(self) == (Globals {
                game: GameData {
                    scenes: final(self).game.scenes,
                    objects: final(self).game.objects,
                    event_objects: final(self).game.event_objects,
                    ..old(self).game
                },
                ..*old(self)
            }),
    {
        let n_scenes: usize = self.game.scenes.len();
        let n_objects: usize = self.game.objects.len();
        let n_events: usize = self.game.event_objects.len();
        for i in 0..n_scenes
            invariant
                12864 + 8 * n_scenes + 12 * n_objects + 32 * n_events <= usize::MAX,
                r.bytes() == old(r).bytes(),
                r.offset() == 3264 + 8 * i,
                self.game.scenes@.len() == n_scenes,
                *self == (Globals { game: GameData { scenes: self.game.scenes, ..old(self).game }, ..*old(self) }),
                forall|k: int| 0 <= k < i ==> #[trigger] self.game.scenes@[k] == Scene::decoded(old(r).bytes(), 3264 + 8 * k),
        {
            self.game.scenes[i] = Scene::read(r);
        }
        let ghost mid = *self;
        let ghost at_objects: int = 3264 + 8 * n_scenes;
        for i in 0..n_objects
            invariant
                12864 + 8 * n_scenes + 12 * n_objects + 32 * n_events <= usize::MAX,
                at_objects == 3264 + 8 * n_scenes,
                r.bytes() == old(r).bytes(),
                r.offset() == at_objects + 12 * i,
                self.game.objects@.len() == n_objects,
                *self == (Globals { game: GameData { objects: self.game.objects, ..mid.game }, ..mid }),
                forall|k: int| 0 <= k < i ==> (#[trigger] self.game.objects@[k]).held_at(old(r).bytes(), at_objects + 12 * k),
                forall|k: int| 0 <= k < i ==> (#[trigger] self.game.objects@[k]).data@[5] == 0,
        {
            self.game.objects[i] = GameObject::read(r);
        }
        let ghost mid = *self;
        let ghost at_events: int = at_objects + 12 * n_objects;
        for i in 0..n_events
            invariant
                12864 + 8 * n_scenes + 12 * n_objects + 32 * n_events <= usize::MAX,
                at_events == 3264 + 8 * n_scenes + 12 * n_objects,
                r.bytes() == old(r).bytes(),
                r.offset() == at_events + 32 * i,
                self.game.event_objects@.len() == n_events,
                *self == (Globals { game: GameData { event_objects: self.game.event_objects, ..mid.game }, ..mid }),
                forall|k: int| 0 <= k < i ==> #[trigger] self.game.event_objects@[k] == EventObject::decoded(old(r).bytes(), at_events + 32 * k),
        {
            self.game.event_objects[i] = EventObject::read(r);
        }
    }

    /// The files to write for a save slot: the saved game, and the text of
    /// the play-time file where the slot has one.
    pub fn save_game(&self, slot: i32, saved_times: u16, playtime_secs: u64) -> (r: (Vec<u8>, Option<String>))
        ensures
            self.saved_as(saved_times, r.0@),
            r.1 is Some <==> slot > 0,
            r.1 matches Some(text) ==> text@ == playtime::playtime_text(playtime_secs),
    {
        (self.save_game_to_bytes(saved_times), playtime::write_playtime_secs(slot, playtime_secs))
    }

    /// The saved form of the game.
    #[verifier::rlimit(60)]
    pub fn save_game_to_bytes(&self, saved_times: u16) -> (buf: Vec<u8>)
        ensures
            self.saved_as(saved_times, buf@),
    {
        let mut w: WordWriter = WordWriter::new();
        self.write_header(saved_times, &mut w);
        let ghost header = w.buf@;
        self.write_party_and_trail(&mut w);
        let ghost party = w.buf@;
        self.exp.write(&mut w);
        let ghost exp = w.buf@;
        self.game.player_roles.write(&mut w);
        let ghost roles = w.buf@;
        self.write_poison(&mut w);
        let ghost poison = w.buf@;
        self.write_inventory(&mut w);
        let ghost inv = w.buf@;
        self.write_tables(&mut w);
        proof {
            wordio::lemma_words_kept(header, w.buf@);
            wordio::lemma_words_kept(party, w.buf@);
            wordio::lemma_words_kept(exp, w.buf@);
            wordio::lemma_words_kept(roles, w.buf@);
            wordio::lemma_words_kept(poison, w.buf@);
            wordio::lemma_words_kept(inv, w.buf@);
        }
        w.buf
    }

    fn write_header(&self, saved_times: u16, w: &mut WordWriter)
        requires
            old(w).buf@.len() == 0,
        ensures
            final(w).buf@.len() == 44,
            wordio::words(final(w).buf@, 0, 20) == self.header_words(saved_times),
            wordio::dword_at(final(w).buf@, 40) == self.cash,
    {
        w.u16(saved_times);
        w.u16(self.viewport.0 as u16);
        w.u16(self.viewport.1 as u16);
        w.u16(self.max_party_member_index);
        w.u16(self.num_scene);
        w.u16(if self.night_palette { 0x180 } else { 0 });
        w.u16(self.party_direction);
        w.u16(self.num_music);
        w.u16(self.num_battle_music);
        w.u16(self.num_battle_field);
        w.u16(self.screen_wave);
        w.u16(2);
        w.u16(self.collect_value);
        w.u16(self.layer);
        w.u16(self.chase_range);
        w.u16(self.chasespeed_change_cycles);
        w.u16(self.follower_num);
        w.u16(0);
        w.u16(0);
        w.u16(0);
        assert(wordio::words(w.buf@, 0, 20) =~= self.header_words(saved_times));
        let ghost mid = w.buf@;
        w.u32(self.cash);
        proof {
            wordio::lemma_words_kept(mid, w.buf@);
        }
    }

    fn write_party_and_trail(&self, w: &mut WordWriter)
        ensures
            final(w).grew(old(w), 80),
            global::party_at(self.party@, final(w).buf@, old(w).buf@.len() as int),
            global::trail_at(self.trail@, final(w).buf@, old(w).buf@.len() as int + 50),
    {
        let ghost start: int = w.buf@.len() as int;
        for i in 0..5usize
            invariant
                start == old(w).buf@.len(),
                w.grew(old(w), 10 * i),
                forall|k: int| 0 <= k < i ==> #[trigger] self.party@[k] == Party::decoded(w.buf@, start + 10 * k),
        {
            let ghost mid = w.buf@;
            self.party[i].write(w);
            proof {
                wordio::lemma_words_kept(mid, w.buf@);
            }
        }
        for i in 0..5usize
            invariant
                start == old(w).buf@.len(),
                w.grew(old(w), 50 + 6 * i),
                global::party_at(self.party@, w.buf@, start),
                forall|k: int| 0 <= k < i ==> #[trigger] self.trail@[k] == Trail::decoded(w.buf@, start + 50 + 6 * k),
        {
            let ghost mid = w.buf@;
            self.trail[i].write(w);
            proof {
                wordio::lemma_words_kept(mid, w.buf@);
            }
        }
    }

    fn write_poison(&self, w: &mut WordWriter)
        ensures
            final(w).grew(old(w), 320),
            global::poison_at(self.poison_status@, final(w).buf@, old(w).buf@.len() as int),
    {
        let ghost start: int = w.buf@.len() as int;
        for i in 0..16usize
            invariant
                start == old(w).buf@.len(),
                w.grew(old(w), 20 * i),
                forall|a: int, b: int|
                    0 <= a < i && 0 <= b < 5 ==> #[trigger] self.poison_status@[a]@[b] == PoisonStatus::decoded(
                        w.buf@,
                        start + 20 * a + 4 * b,
                    ),
        {
            for j in 0..5usize
                invariant
                    start == old(w).buf@.len(),
                    i < 16,
                    w.grew(old(w), 20 * i + 4 * j),
                    forall|a: int, b: int|
                        0 <= a < i && 0 <= b < 5 ==> #[trigger] self.poison_status@[a]@[b] == PoisonStatus::decoded(
                            w.buf@,
                            start + 20 * a + 4 * b,
                        ),
                    forall|b: int|
                        0 <= b < j ==> #[trigger] self.poison_status@[i as int]@[b] == PoisonStatus::decoded(
                            w.buf@,
                            start + 20 * i + 4 * b,
                        ),
            {
                let ghost mid = w.buf@;
                self.poison_status[i][j].write(w);
                proof {
                    wordio::lemma_words_kept(mid, w.buf@);
                }
            }
        }
    }

    fn write_inventory(&self, w: &mut WordWriter)
        ensures
            final(w).grew(old(w), 1536),
            global::inventory_at(self.inventory@, final(w).buf@, old(w).buf@.len() as int),
    {
        let ghost start: int = w.buf@.len() as int;
        for i in 0..256usize
            invariant
                start == old(w).buf@.len(),
                w.grew(old(w), 6 * i),
                forall|k: int| 0 <= k < i ==> #[trigger] self.inventory@[k] == Inventory::decoded(w.buf@, start + 6 * k),
        {
            let ghost mid = w.buf@;
            self.inventory[i].write(w);
            proof {
                wordio::lemma_words_kept(mid, w.buf@);
            }
        }
    }

    fn write_tables(&self, w: &mut WordWriter)
        requires
            old(w).buf@.len() == 3264,
        ensures
            wordio::extends(old(w).buf@, final(w).buf@),
            final(w).buf@.len() == self.saved_size(),
            gamedata::scenes_at(self.game.scenes@, final(w).buf@, self.scenes_offset()),
            gamedata::objects_at(self.game.objects@, final(w).buf@, self.objects_offset()),
            gamedata::event_objects_at(self.game.event_objects@, final(w).buf@, self.event_objects_offset()),
    {
        for i in 0..self.game.scenes.len()
            invariant
                old(w).buf@.len() == 3264,
                w.grew(old(w), 8 * i),
                forall|k: int| 0 <= k < i ==> #[trigger] self.game.scenes@[k] == Scene::decoded(w.buf@, 3264 + 8 * k),
        {
            let ghost mid = w.buf@;
            self.game.scenes[i].write(w);
            proof {
                wordio::lemma_words_kept(mid, w.buf@);
            }
        }
        let ghost scenes = w.buf@;
        let ghost at_objects: int = self.objects_offset();
        for i in 0..self.game.objects.len()
            invariant
                at_objects == scenes.len() == self.objects_offset(),
                wordio::extends(scenes, w.buf@),
                w.buf@.len() == at_objects + 12 * i,
                forall|k: int| 0 <= k < i ==> (#[trigger] self.game.objects@[k]).held_at(w.buf@, at_objects + 12 * k),
        {
            let ghost mid = w.buf@;
            self.game.objects[i].write(w);
            proof {
                wordio::lemma_words_kept(mid, w.buf@);
            }
        }
        let ghost objects = w.buf@;
        let ghost at_events: int = self.event_objects_offset();
        for i in 0..self.game.event_objects.len()
            invariant
                at_events == objects.len() == self.event_objects_offset(),
                wordio::extends(objects, w.buf@),
                w.buf@.len() == at_events + 32 * i,
                forall|k: int| 0 <= k < i ==> #[trigger] self.game.event_objects@[k] == EventObject::decoded(w.buf@, at_events + 32 * k),
        {
            let ghost mid = w.buf@;
            self.game.event_objects[i].write(w);
            proof {
                wordio::lemma_words_kept(mid, w.buf@);
            }
        }
        proof {
            wordio::lemma_words_kept(scenes, w.buf@);
            wordio::lemma_words_kept(objects, w.buf@);
        }
    }
}

/// A saved game loads back: where `after` was loaded from the saved form of
/// `g`, everything that a save holds is as it was in `g`. The viewport comes
/// back modulo 2^16, the inventory without gaps, nobody poisoned, and the
/// word of an object that a save has no room for as 0.
pub proof fn law_saved_game_loads_back(g: Globals, saved_times: u16, buf: Seq<u8>, after: Globals)
    requires
        g.saved_as(saved_times, buf),
        after.loaded_from(buf),
        after.same_table_sizes(&g),
    ensures
        after.viewport.0 == g.viewport.0 as int % 0x1_0000,
        after.viewport.1 == g.viewport.1 as int % 0x1_0000,
        after.max_party_member_index == g.max_party_member_index,
        after.num_scene == g.num_scene,
        after.night_palette == g.night_palette,
        after.party_direction == g.party_direction,
        after.num_music == g.num_music,
        after.num_battle_music == g.num_battle_music,
        after.num_battle_field == g.num_battle_field,
        after.screen_wave == g.screen_wave,
        after.collect_value == g.collect_value,
        after.layer == g.layer,
        after.chase_range == g.chase_range,
        after.chasespeed_change_cycles == g.chasespeed_change_cycles,
        after.follower_num == g.follower_num,
        after.cash == g.cash,
        after.party == g.party,
        after.trail == g.trail,
        after.exp == g.exp,
        after.game.player_roles == g.game.player_roles,
        global::no_poison(after.poison_status@),
        after.inventory@ == inventory::compressed(g.inventory@),
        after.game.scenes@ == g.game.scenes@,
        after.game.event_objects@ == g.game.event_objects@,
        forall|i: int|
            0 <= i < g.game.objects@.len() ==> (#[trigger] after.game.objects@[i]).data@ == g.game.objects@[i].data@.update(5, 0),
{
    let header = g.header_words(saved_times);
    let stored = wordio::words(buf, 0, 20);
    assert(forall|k: int| 0 <= k < 20 ==> #[trigger] stored[k] == wordio::word_at(buf, 2 * k));
    assert(stored[1] == header[1] && stored[2] == header[2] && stored[3] == header[3] && stored[4] == header[4]);
    assert(stored[5] == header[5] && stored[6] == header[6] && stored[7] == header[7] && stored[8] == header[8]);
    assert(stored[9] == header[9] && stored[10] == header[10] && stored[12] == header[12] && stored[13] == header[13]);
    assert(stored[14] == header[14] && stored[15] == header[15] && stored[16] == header[16]);
    casts::lemma_i32_as_u16(g.viewport.0);
    casts::lemma_i32_as_u16(g.viewport.1);
    assert(after.party =~= g.party);
    assert(after.trail =~= g.trail);
    AllExperience::lemma_held_determine(after.exp, g.exp, buf, 124);
    crate::roles::law_roles_survive_storage(g.game.player_roles, after.game.player_roles, buf, 508);
    assert(global::stored_inventory(buf) =~= g.inventory@);
    assert(after.game.scenes@ =~= g.game.scenes@);
    assert(after.game.event_objects@ =~= g.game.event_objects@);
    assert forall|i: int| 0 <= i < g.game.objects@.len() implies (#[trigger] after.game.objects@[i]).data@
        == g.game.objects@[i].data@.update(5, 0) by {
        crate::records::law_object_survives_storage(g.game.objects@[i], g.game.objects@[i].stored(), after.game.objects@[i]);
    }
}

/// Every saved game with full tables is long enough to be loaded, whatever
/// the number of its event objects.
pub proof fn law_saved_game_is_accepted(g: Globals, saved_times: u16, buf: Seq<u8>)
    requires
        g.saved_as(saved_times, buf),
        g.game.scenes@.len() >= 300,
        g.game.objects@.len() >= 600,
    ensures
        buf.len() >= 12864,
        g.game.scenes@.len() == 300 && g.game.objects@.len() == 600 ==> buf.len() == 12864 + 32 * g.game.event_objects@.len(),
{
}

} // verus!
