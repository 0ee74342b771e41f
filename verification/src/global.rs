//! The state of a running game, its start and its saved form.

use vstd::prelude::*;

use crate::data::{DataDir, DataError, GameFiles};
use crate::gamedata;
use crate::gamedata::GameData;
use crate::inventory;
use crate::playtime;
use crate::records::{
    Experience, Inventory, Party, PoisonStatus, Trail, MAX_INVENTORY, MAX_PLAYABLE_PLAYER_ROLES,
    MAX_PLAYER_ROLES, MAX_POISONS,
};
use crate::roles::{AllExperience, PlayerRoles};
use crate::wordio;

verus! {

// What the resource layer has to load.
pub const LOAD_GLOBAL_DATA: u8 = 1;
pub const LOAD_SCENE: u8 = 2;
pub const LOAD_PLAYER_SPRITE: u8 = 4;

// Player status IDs.
pub const STATUS_CONFUSED: usize = 0;
pub const STATUS_PARALYZED: usize = 1;
pub const STATUS_SLEEP: usize = 2;
pub const STATUS_SILENCE: usize = 3;
pub const STATUS_PUPPET: usize = 4;
pub const STATUS_BRAVERY: usize = 5;
pub const STATUS_PROTECT: usize = 6;
pub const STATUS_HASTE: usize = 7;
pub const STATUS_DUALATTACK: usize = 8;
pub const STATUS_ALL: usize = 9;

// Body parts of equipment.
pub const BODYPART_HEAD: usize = 0;
pub const BODYPART_BODY: usize = 1;
pub const BODYPART_SHOULDER: usize = 2;
pub const BODYPART_HAND: usize = 3;
pub const BODYPART_FEET: usize = 4;
pub const BODYPART_WEAR: usize = 5;
pub const BODYPART_EXTRA: usize = 6;

// States of event objects.
pub const OBJSTATE_HIDDEN: i16 = 0;
pub const OBJSTATE_NORMAL: i16 = 1;
pub const OBJSTATE_BLOCKER: i16 = 2;

// Trigger modes.
pub const TRIGGER_NONE: u16 = 0;
pub const TRIGGER_SEARCH_NEAR: u16 = 1;
pub const TRIGGER_SEARCH_NORMAL: u16 = 2;
pub const TRIGGER_SEARCH_FAR: u16 = 3;
pub const TRIGGER_TOUCH_NEAR: u16 = 4;
pub const TRIGGER_TOUCH_NORMAL: u16 = 5;
pub const TRIGGER_TOUCH_FAR: u16 = 6;
pub const TRIGGER_TOUCH_FARTHER: u16 = 7;
pub const TRIGGER_TOUCH_FARTHEST: u16 = 8;

// Item flags.
pub const ITEMFLAG_USABLE: u16 = 1;
pub const ITEMFLAG_EQUIPABLE: u16 = 2;
pub const ITEMFLAG_THROWABLE: u16 = 4;
pub const ITEMFLAG_CONSUMING: u16 = 8;
pub const ITEMFLAG_APPLY_TO_ALL: u16 = 16;
pub const ITEMFLAG_SELLABLE: u16 = 32;
pub const ITEMFLAG_EQUIPABLE_BY_FIRST: u16 = 64;

// Magic flags.
pub const MAGICFLAG_USABLE_OUTSIDE_BATTLE: u16 = 1;
pub const MAGICFLAG_USABLE_IN_BATTLE: u16 = 2;
pub const MAGICFLAG_USABLE_TO_ENEMY: u16 = 8;
pub const MAGICFLAG_APPLY_TO_ALL: u16 = 16;

// Magic types.
pub const MAGICTYPE_NORMAL: u16 = 0;
pub const MAGICTYPE_ATTACKALL: u16 = 1;
pub const MAGICTYPE_ATTACKWHOLE: u16 = 2;
pub const MAGICTYPE_ATTACKFIELD: u16 = 3;
pub const MAGICTYPE_APPLYTOPLAYER: u16 = 4;
pub const MAGICTYPE_APPLYTOPARTY: u16 = 5;
pub const MAGICTYPE_TRANCE: u16 = 8;
pub const MAGICTYPE_SUMMON: u16 = 9;

// Directions.
pub const DIR_SOUTH: u16 = 0;
pub const DIR_WEST: u16 = 1;
pub const DIR_NORTH: u16 = 2;
pub const DIR_EAST: u16 = 3;

/// The state of a running game.
pub struct Globals {
    pub data_dir: DataDir,
    pub save_dir: String,
    pub files: GameFiles,
    pub game: GameData,
    pub cur_main_menu_item: i32,
    pub cur_system_menu_item: i32,
    pub cur_inv_menu_item: i32,
    /// The caster that the magic menu remembers.
    pub cur_magic_menu_player: u16,
    pub cur_playing_rng: i32,
    pub current_save_slot: u8,
    pub in_main_game: bool,
    pub entering_scene: bool,
    pub need_to_fade_in: bool,
    pub in_battle: bool,
    pub auto_battle: bool,
    pub last_unequipped_item: u16,
    /// Equipment effects: one table per body part, and an extra one.
    pub equipment_effect: [PlayerRoles; 7],
    pub player_status: [[u16; STATUS_ALL]; MAX_PLAYER_ROLES],
    pub viewport: (i32, i32),
    pub partyoffset: (i32, i32),
    pub layer: u16,
    pub max_party_member_index: u16,
    pub party: [Party; MAX_PLAYABLE_PLAYER_ROLES],
    pub trail: [Trail; MAX_PLAYABLE_PLAYER_ROLES],
    pub party_direction: u16,
    pub num_scene: u16,
    pub num_palette: u16,
    pub night_palette: bool,
    pub num_music: u16,
    pub num_battle_music: u16,
    pub num_battle_field: u16,
    pub collect_value: u16,
    pub screen_wave: u16,
    pub wave_progression: i16,
    pub chase_range: u16,
    pub chasespeed_change_cycles: u16,
    pub follower_num: u16,
    pub cash: u32,
    pub exp: AllExperience,
    pub poison_status: [[PoisonStatus; MAX_PLAYABLE_PLAYER_ROLES]; MAX_POISONS],
    pub inventory: [Inventory; MAX_INVENTORY],
    pub frame_num: u32,
    /// Play time of this save lineage in seconds, without the open session.
    pub playtime_secs: u64,
    /// What the resource layer has to load.
    pub load_flags: u8,
}

/// Every role's status counters are 0.
pub open spec fn no_status(table: Seq<[u16; 9]>) -> bool {
    forall|i: int, j: int| 0 <= i < 6 && 0 <= j < 9 ==> #[trigger] table[i]@[j] == 0
}

/// Nobody is poisoned.
pub open spec fn no_poison(table: Seq<[PoisonStatus; 5]>) -> bool {
    forall|i: int, j: int| 0 <= i < 16 && 0 <= j < 5 ==> #[trigger] table[i]@[j] == PoisonStatus::none()
}

/// The experience of a new game: nothing gained, and the levels of the roles.
pub open spec fn starting_experience(exp: AllExperience, roles: PlayerRoles) -> bool {
    forall|g: int, j: int|
        0 <= g < 8 && 0 <= j < 6 ==> #[trigger] exp.group(g)[j] == (Experience { level: roles.level@[j], ..Experience::zero() })
}

/// The party records stored from byte offset `at` on.
pub open spec fn party_at(party: Seq<Party>, buf: Seq<u8>, at: int) -> bool {
    forall|i: int| 0 <= i < 5 ==> #[trigger] party[i] == Party::decoded(buf, at + 10 * i)
}

/// The trail records stored from byte offset `at` on.
pub open spec fn trail_at(trail: Seq<Trail>, buf: Seq<u8>, at: int) -> bool {
    forall|i: int| 0 <= i < 5 ==> #[trigger] trail[i] == Trail::decoded(buf, at + 6 * i)
}

/// The poison records stored from byte offset `at` on.
pub open spec fn poison_at(table: Seq<[PoisonStatus; 5]>, buf: Seq<u8>, at: int) -> bool {
    forall|i: int, j: int|
        0 <= i < 16 && 0 <= j < 5 ==> #[trigger] table[i]@[j] == PoisonStatus::decoded(buf, at + 20 * i + 4 * j)
}

/// The inventory slots stored from byte offset `at` on.
pub open spec fn inventory_at(inv: Seq<Inventory>, buf: Seq<u8>, at: int) -> bool {
    forall|i: int| 0 <= i < 256 ==> #[trigger] inv[i] == Inventory::decoded(buf, at + 6 * i)
}

/// The slots that a saved game holds.
pub open spec fn stored_inventory(buf: Seq<u8>) -> Seq<Inventory> {
    Seq::new(256, |i: int| Inventory::decoded(buf, 1728 + 6 * i))
}

impl Globals {
    /// The words of a saved game before the party records.
    pub open spec fn header_words(&self, saved_times: u16) -> Seq<u16> {
        seq![
            saved_times,
            self.viewport.0 as u16,
            self.viewport.1 as u16,
            self.max_party_member_index,
            self.num_scene,
            if self.night_palette { 0x180u16 } else { 0u16 },
            self.party_direction,
            self.num_music,
            self.num_battle_music,
            self.num_battle_field,
            self.screen_wave,
            2u16,
            self.collect_value,
            self.layer,
            self.chase_range,
            self.chasespeed_change_cycles,
            self.follower_num,
            0u16,
            0u16,
            0u16,
        ]
    }

    /// Where the tables of scenes, objects and event objects start in a saved
    /// game, and where it ends.
    pub open spec fn scenes_offset(&self) -> int {
        3264
    }

    pub open spec fn objects_offset(&self) -> int {
        3264 + 8 * (self.game.scenes@.len() as int)
    }

    pub open spec fn event_objects_offset(&self) -> int {
        self.objects_offset() + 12 * self.game.objects@.len()
    }

    pub open spec fn saved_size(&self) -> int {
        self.event_objects_offset() + 32 * self.game.event_objects@.len()
    }

    /// `buf` is this game's saved form.
    pub open spec fn saved_as(&self, saved_times: u16, buf: Seq<u8>) -> bool {
        &&& buf.len() == self.saved_size()
        &&& wordio::words(buf, 0, 20) == self.header_words(saved_times)
        &&& wordio::dword_at(buf, 40) == self.cash
        &&& party_at(self.party@, buf, 44)
        &&& trail_at(self.trail@, buf, 94)
        &&& self.exp.held_at(buf, 124)
        &&& self.game.player_roles.held_at(buf, 508)
        &&& poison_at(self.poison_status@, buf, 1408)
        &&& inventory_at(self.inventory@, buf, 1728)
        &&& gamedata::scenes_at(self.game.scenes@, buf, self.scenes_offset())
        &&& gamedata::objects_at(self.game.objects@, buf, self.objects_offset())
        &&& gamedata::event_objects_at(self.game.event_objects@, buf, self.event_objects_offset())
    }

    /// The part of the state that is loaded holds what `buf` holds; the
    /// inventory is compressed, poisons are cured and the wave effect stops.
    pub open spec fn loaded_from(&self, buf: Seq<u8>) -> bool {
        &&& self.viewport == (wordio::word_at(buf, 2) as i32, wordio::word_at(buf, 4) as i32)
        &&& self.max_party_member_index == wordio::word_at(buf, 6)
        &&& self.num_scene == wordio::word_at(buf, 8)
        &&& self.night_palette == (wordio::word_at(buf, 10) != 0)
        &&& self.party_direction == wordio::word_at(buf, 12)
        &&& self.num_music == wordio::word_at(buf, 14)
        &&& self.num_battle_music == wordio::word_at(buf, 16)
        &&& self.num_battle_field == wordio::word_at(buf, 18)
        &&& self.screen_wave == wordio::word_at(buf, 20)
        &&& self.wave_progression == 0
        &&& self.collect_value == wordio::word_at(buf, 24)
        &&& self.layer == wordio::word_at(buf, 26)
        &&& self.chase_range == wordio::word_at(buf, 28)
        &&& self.chasespeed_change_cycles == wordio::word_at(buf, 30)
        &&& self.follower_num == wordio::word_at(buf, 32)
        &&& self.cash == wordio::dword_at(buf, 40)
        &&& party_at(self.party@, buf, 44)
        &&& trail_at(self.trail@, buf, 94)
        &&& self.exp.held_at(buf, 124)
        &&& self.game.player_roles.held_at(buf, 508)
        &&& no_poison(self.poison_status@)
        &&& self.inventory@ == inventory::compressed(stored_inventory(buf))
        &&& gamedata::scenes_at(self.game.scenes@, buf, self.scenes_offset())
        &&& gamedata::objects_at(self.game.objects@, buf, self.objects_offset())
        &&& gamedata::objects_fresh(self.game.objects@)
        &&& gamedata::event_objects_at(self.game.event_objects@, buf, self.event_objects_offset())
        &&& !self.entering_scene
    }

    /// The tables of a saved game have the sizes they have in `other`.
    pub open spec fn same_table_sizes(&self, other: &Globals) -> bool {
        &&& self.game.scenes@.len() == other.game.scenes@.len()
        &&& self.game.objects@.len() == other.game.objects@.len()
        &&& self.game.event_objects@.len() == other.game.event_objects@.len()
    }

    /// Everything that loading a game does not touch is as in `before`.
    pub open spec fn unloaded_part_of(&self, before: &Globals) -> bool {
        *self == (Globals {
            game: GameData {
                player_roles: self.game.player_roles,
                scenes: self.game.scenes,
                objects: self.game.objects,
                event_objects: self.game.event_objects,
                ..before.game
            },
            viewport: self.viewport,
            max_party_member_index: self.max_party_member_index,
            num_scene: self.num_scene,
            night_palette: self.night_palette,
            party_direction: self.party_direction,
            num_music: self.num_music,
            num_battle_music: self.num_battle_music,
            num_battle_field: self.num_battle_field,
            screen_wave: self.screen_wave,
            wave_progression: self.wave_progression,
            collect_value: self.collect_value,
            layer: self.layer,
            chase_range: self.chase_range,
            chasespeed_change_cycles: self.chasespeed_change_cycles,
            follower_num: self.follower_num,
            cash: self.cash,
            party: self.party,
            trail: self.trail,
            exp: self.exp,
            poison_status: self.poison_status,
            inventory: self.inventory,
            entering_scene: self.entering_scene,
            ..*before
        })
    }

    /// The game stands where a new one starts.
    pub open spec fn new_game(&self) -> bool {
        &&& self.game.starts_from(&self.files)
        &&& self.cash == 0
        &&& self.num_music == 0
        &&& self.num_palette == 0
        &&& self.num_scene == 1
        &&& self.collect_value == 0
        &&& !self.night_palette
        &&& self.max_party_member_index == 0
        &&& self.viewport == (0i32, 0i32)
        &&& self.layer == 0
        &&& self.follower_num == 0
        &&& self.chase_range == 1
        &&& forall|i: int| 0 <= i < 256 ==> #[trigger] self.inventory@[i] == Inventory::zero()
        &&& no_poison(self.poison_status@)
        &&& forall|i: int| 0 <= i < 5 ==> #[trigger] self.party@[i] == Party::zero()
        &&& forall|i: int| 0 <= i < 5 ==> #[trigger] self.trail@[i] == Trail::zero()
        &&& starting_experience(self.exp, self.game.player_roles)
        &&& self.entering_scene
    }

    /// Everything that starting a new game does not touch is as in `before`.
    pub open spec fn unstarted_part_of(&self, before: &Globals) -> bool {
        *self == (Globals {
            game: GameData {
                player_roles: self.game.player_roles,
                scenes: self.game.scenes,
                objects: self.game.objects,
                event_objects: self.game.event_objects,
                ..before.game
            },
            cash: self.cash,
            num_music: self.num_music,
            num_palette: self.num_palette,
            num_scene: self.num_scene,
            collect_value: self.collect_value,
            night_palette: self.night_palette,
            max_party_member_index: self.max_party_member_index,
            viewport: self.viewport,
            layer: self.layer,
            follower_num: self.follower_num,
            chase_range: self.chase_range,
            inventory: self.inventory,
            poison_status: self.poison_status,
            party: self.party,
            trail: self.trail,
            exp: self.exp,
            entering_scene: self.entering_scene,
            ..*before
        })
    }

    /// The game to start from a save slot is in that slot: the slot is not 0
    /// and its file was read and is long enough.
    pub open spec fn slot_loads(slot: i32, save: Option<&[u8]>) -> bool {
        slot != 0 && save is Some && save->0@.len() >= 12864
    }

    /// The game was set up from a save slot, in the state `before`: loaded
    /// from the slot where that is possible, else new. Everything that a game
    /// does not load or start with is kept, but for the inventory cursor, the
    /// battle mark and the roles' statuses, which are reset.
    pub open spec fn set_up_from(&self, before: &Globals, slot: i32, save: Option<&[u8]>, playtime: Option<&[u8]>) -> bool {
        let kept = Globals {
            current_save_slot: slot as u8,
            playtime_secs: self.playtime_secs,
            cur_inv_menu_item: 0,
            in_battle: false,
            player_status: self.player_status,
            ..*before
        };
        &&& no_status(self.player_status@)
        &&& self.same_table_sizes(before)
        &&& if Globals::slot_loads(slot, save) {
            &&& self.loaded_from(save->0@)
            &&& self.unloaded_part_of(&kept)
            &&& self.playtime_secs == playtime::slot_playtime(slot, playtime)
        } else {
            &&& self.new_game()
            &&& self.unstarted_part_of(&kept)
            &&& self.playtime_secs == 0
        }
    }

    /// The game could not be set up, in the state `before`: only tables are
    /// reloaded, up to the first chunk that is missing.
    pub open spec fn not_set_up_from(&self, before: &Globals, slot: i32) -> bool {
        &&& self.game.reloaded_from(&before.game, &before.files)
        &&& *self == (Globals { current_save_slot: slot as u8, game: self.game, ..*before })
    }

    /// Take over the archives and load the data tables.
    pub fn init(data_dir: DataDir, files: GameFiles) -> (r: Result<Globals, DataError>)
        ensures
            r is Ok <==> files.has_first(GameFiles::fixed_chunks(), 10) && files.has_first(GameFiles::default_chunks(), 4),
            r matches Err(e) ==> if files.has_first(GameFiles::fixed_chunks(), 10) {
                files.first_missing(GameFiles::default_chunks(), e)
            } else {
                files.first_missing(GameFiles::fixed_chunks(), e)
            },
            r matches Ok(g) ==> {
                &&& g.data_dir == data_dir
                &&& g.save_dir@ == data_dir.root@
                &&& g.files == files
                &&& g.game.sized_by(&files)
                &&& g.game.fixed_tables_from(&files)
                &&& g.game.starts_from(&files)
                &&& g.cur_main_menu_item == 0 && g.cur_system_menu_item == 0 && g.cur_inv_menu_item == 0
                &&& g.cur_magic_menu_player == 0 && g.cur_playing_rng == 0 && g.current_save_slot == 1
                &&& !g.in_main_game && !g.entering_scene && !g.need_to_fade_in && !g.in_battle && !g.auto_battle
                &&& g.last_unequipped_item == 0
                &&& forall|i: int| 0 <= i < 7 ==> (#[trigger] g.equipment_effect@[i]).is_zero()
                &&& no_status(g.player_status@)
                &&& g.viewport == (0i32, 0i32) && g.partyoffset == (0i32, 0i32) && g.layer == 0
                &&& g.max_party_member_index == 0
                &&& forall|i: int| 0 <= i < 5 ==> #[trigger] g.party@[i] == Party::zero()
                &&& forall|i: int| 0 <= i < 5 ==> #[trigger] g.trail@[i] == Trail::zero()
                &&& g.party_direction == 0 && g.num_scene == 1 && g.num_palette == 0 && !g.night_palette
                &&& g.num_music == 0 && g.num_battle_music == 0 && g.num_battle_field == 0
                &&& g.collect_value == 0 && g.screen_wave == 0 && g.wave_progression == 0
                &&& g.chase_range == 1 && g.chasespeed_change_cycles == 0 && g.follower_num == 0
                &&& g.cash == 0
                &&& g.exp.is_zero()
                &&& no_poison(g.poison_status@)
                &&& forall|i: int| 0 <= i < 256 ==> #[trigger] g.inventory@[i] == Inventory::zero()
                &&& g.frame_num == 0 && g.playtime_secs == 0 && g.load_flags == 0
            },
    {
        let game: GameData = match GameData::load(&files) {
            Ok(game) => game,
            Err(e) => {
                return Err(e);
            },
        };
        let save_dir: String = data_dir.root.clone();
        let zero_role: PlayerRoles = PlayerRoles::default();
        let zero_party: Party = Party::default();
        let zero_trail: Trail = Trail::default();
        let zero_slot: Inventory = Inventory::default();
        let zero_poison: PoisonStatus = PoisonStatus::default();
        Ok(
            Globals {
                data_dir,
                save_dir,
                files,
                game,
                cur_main_menu_item: 0,
                cur_system_menu_item: 0,
                cur_inv_menu_item: 0,
                cur_magic_menu_player: 0,
                cur_playing_rng: 0,
                current_save_slot: 1,
                in_main_game: false,
                entering_scene: false,
                need_to_fade_in: false,
                in_battle: false,
                auto_battle: false,
                last_unequipped_item: 0,
                equipment_effect: [zero_role; 7],
                player_status: [[0u16; 9]; 6],
                viewport: (0, 0),
                partyoffset: (0, 0),
                layer: 0,
                max_party_member_index: 0,
                party: [zero_party; 5],
                trail: [zero_trail; 5],
                party_direction: 0,
                num_scene: 1,
                num_palette: 0,
                night_palette: false,
                num_music: 0,
                num_battle_music: 0,
                num_battle_field: 0,
                collect_value: 0,
                screen_wave: 0,
                wave_progression: 0,
                chase_range: 1,
                chasespeed_change_cycles: 0,
                follower_num: 0,
                cash: 0,
                exp: AllExperience::default(),
                poison_status: [[zero_poison; 5]; 16],
                inventory: [zero_slot; 256],
                frame_num: 0,
                playtime_secs: 0,
                load_flags: 0,
            },
        )
    }

    /// Set up a game from a save slot (0 starts a new one), given the
    /// contents of the slot's save and play-time files where they could be
    /// read. Equipment effects are to be refreshed by the caller.
    pub fn init_game_data(&mut self, save_slot: i32, save: Option<&[u8]>, playtime: Option<&[u8]>) -> (r: Result<(), DataError>)
        requires
            old(self).game.addressable(),
        ensures
            r is Ok ==> final(self).set_up_from(old(self), save_slot, save, playtime),
            r is Ok <==> Globals::slot_loads(save_slot, save) || old(self).files.has_first(GameFiles::default_chunks(), 4),
            r matches Err(e) ==> {
                &&& old(self).files.first_missing(GameFiles::default_chunks(), e)
                &&& final(self).not_set_up_from(old(self), save_slot)
            },
            final(self).same_table_sizes(old(self)),
    {
        self.current_save_slot = save_slot as u8;
        let loaded: bool = if save_slot == 0 {
            false
        } else {
            match self.load_game(save) {
                Ok(()) => true,
                Err(_) => false,
            }
        };
        if loaded {
            self.playtime_secs = playtime::read_playtime_secs(save_slot, playtime);
        } else {
            match self.load_default_game() {
                Ok(()) => {},
                Err(e) => {
                    return Err(e);
                },
            }
            self.playtime_secs = 0;
        }
        self.cur_inv_menu_item = 0;
        self.in_battle = false;
        self.player_status = [[0u16; 9]; 6];
        Ok(())
    }

    /// Set up a new game.
    pub fn load_default_game(&mut self) -> (r: Result<(), DataError>)
        requires
            old(self).game.addressable(),
        ensures
            r is Ok <==> old(self).files.has_first(GameFiles::default_chunks(), 4),
            r matches Err(e) ==> old(self).files.first_missing(GameFiles::default_chunks(), e),
            r is Ok ==> final(self).new_game(),
            r is Err ==> {
                &&& final(self).game.reloaded_from(&old(self).game, &old(self).files)
                &&& *final(self) == (Globals { game: final(self).game, ..*old(self) })
            },
            final(self).same_table_sizes(old(self)),
            final(self).unstarted_part_of(old(self)),
    {
        match self.game.reload_default(&self.files) {
            Ok(()) => {},
            Err(e) => {
                return Err(e);
            },
        }
        self.cash = 0;
        self.num_music = 0;
        self.num_palette = 0;
        self.num_scene = 1;
        self.collect_value = 0;
        self.night_palette = false;
        self.max_party_member_index = 0;
        self.viewport = (0, 0);
        self.layer = 0;
        self.follower_num = 0;
        self.chase_range = 1;
        let zero_slot: Inventory = Inventory::default();
        let zero_poison: PoisonStatus = PoisonStatus::default();
        let zero_party: Party = Party::default();
        let zero_trail: Trail = Trail::default();
        self.inventory = [zero_slot; 256];
        self.poison_status = [[zero_poison; 5]; 16];
        self.party = [zero_party; 5];
        self.trail = [zero_trail; 5];
        self.exp = AllExperience::default();
        let ghost before = *self;
        for i in 0..6usize
            invariant
                *self == (Globals { exp: self.exp, ..before }),
                before.exp.is_zero(),
                forall|g: int, j: int|
                    0 <= g < 8 && 0 <= j < i ==> #[trigger] self.exp.group(g)[j] == (Experience {
                        level: self.game.player_roles.level@[j],
                        ..Experience::zero()
                    }),
                forall|g: int, j: int| 0 <= g < 8 && i <= j < 6 ==> #[trigger] self.exp.group(g)[j] == before.exp.group(g)[j],
        {
            let level: u16 = self.game.player_roles.level[i];
            let ghost prev = self.exp;
            assert forall|g: int| 0 <= g < 8 implies #[trigger] prev.group(g)[i as int] == Experience::zero() by {
                assert(before.exp.group(g)[i as int] == Experience::zero());
            }
            assert(prev.group(0)[i as int] == prev.primary_exp@[i as int]);
            assert(prev.group(1)[i as int] == prev.health_exp@[i as int]);
            assert(prev.group(2)[i as int] == prev.magic_exp@[i as int]);
            assert(prev.group(3)[i as int] == prev.attack_exp@[i as int]);
            assert(prev.group(4)[i as int] == prev.magic_power_exp@[i as int]);
            assert(prev.group(5)[i as int] == prev.defense_exp@[i as int]);
            assert(prev.group(6)[i as int] == prev.dexterity_exp@[i as int]);
            assert(prev.group(7)[i as int] == prev.flee_exp@[i as int]);
            self.exp.primary_exp[i].level = level;
            self.exp.health_exp[i].level = level;
            self.exp.magic_exp[i].level = level;
            self.exp.attack_exp[i].level = level;
            self.exp.magic_power_exp[i].level = level;
            self.exp.defense_exp[i].level = level;
            self.exp.dexterity_exp[i].level = level;
            self.exp.flee_exp[i].level = level;
            assert forall|g: int, j: int| 0 <= g < 8 && 0 <= j < 6 && j != i implies #[trigger] self.exp.group(g)[j]
                == prev.group(g)[j] by {}
        }
        self.entering_scene = true;
        Ok(())
    }

    /// Load a game from the contents of its file, if it could be read.
    pub fn load_game(&mut self, save: Option<&[u8]>) -> (r: Result<(), DataError>)
        requires
            old(self).game.addressable(),
        ensures
            r is Ok <==> save is Some && save->0@.len() >= 12864,
            r matches Err(e) ==> *final(self) == *old(self) && e == if save is None {
                DataError::SaveUnreadable
            } else {
                DataError::SaveTooShort
            },
            r is Ok ==> final(self).loaded_from(save->0@) && final(self).same_table_sizes(old(self))
                && final(self).unloaded_part_of(old(self)),
    {
        match save {
            Some(buf) => self.load_game_from_bytes(buf),
            None => Err(DataError::SaveUnreadable),
        }
    }
}

/// What stands where in a saved game: how often the game was saved, the state
/// of the world, the cash, the party and its trail, the experience and the
/// roles, poisons, the inventory, and the tables of scenes, objects and event
/// objects.
pub proof fn law_saved_game_layout(g: Globals, saved_times: u16, buf: Seq<u8>, i: int)
    requires
        g.saved_as(saved_times, buf),
        0 <= i,
    ensures
        wordio::word_at(buf, 0) == saved_times,
        wordio::word_at(buf, 10) == if g.night_palette { 0x180int } else { 0 },
        0 <= g.viewport.0 <= u16::MAX ==> wordio::word_at(buf, 2) == g.viewport.0,
        0 <= g.viewport.1 <= u16::MAX ==> wordio::word_at(buf, 4) == g.viewport.1,
        wordio::word_at(buf, 6) == g.max_party_member_index,
        wordio::word_at(buf, 8) == g.num_scene,
        wordio::word_at(buf, 12) == g.party_direction,
        wordio::word_at(buf, 14) == g.num_music,
        wordio::word_at(buf, 16) == g.num_battle_music,
        wordio::word_at(buf, 18) == g.num_battle_field,
        wordio::word_at(buf, 20) == g.screen_wave,
        wordio::word_at(buf, 24) == g.collect_value,
        wordio::word_at(buf, 26) == g.layer,
        wordio::word_at(buf, 28) == g.chase_range,
        wordio::word_at(buf, 30) == g.chasespeed_change_cycles,
        wordio::word_at(buf, 32) == g.follower_num,
        wordio::dword_at(buf, 40) == g.cash,
        i < 5 ==> g.party@[i] == Party::decoded(buf, 44 + 10 * i),
        i < 5 ==> g.trail@[i] == Trail::decoded(buf, 94 + 6 * i),
        i < 6 ==> g.exp.primary_exp@[i] == Experience::decoded(buf, 124 + 8 * i),
        i < 6 ==> g.game.player_roles.level@[i] == wordio::word_at(buf, 508 + 72 + 2 * i),
        i < 5 ==> g.poison_status@[0]@[i] == PoisonStatus::decoded(buf, 1408 + 4 * i),
        i < 16 ==> g.poison_status@[i]@[0] == PoisonStatus::decoded(buf, 1408 + 20 * i),
        i < 256 ==> g.inventory@[i] == Inventory::decoded(buf, 1728 + 6 * i),
        i < g.game.scenes@.len() ==> g.game.scenes@[i] == crate::records::Scene::decoded(buf, 3264 + 8 * i),
        g.game.scenes@.len() == 300 && i < g.game.objects@.len() ==> g.game.objects@[i].held_at(buf, 5664 + 12 * i),
        g.game.scenes@.len() == 300 && g.game.objects@.len() == 600 && i < g.game.event_objects@.len()
            ==> g.game.event_objects@[i] == crate::records::EventObject::decoded(buf, 12864 + 32 * i),
{
    let h = wordio::words(buf, 0, 20);
    assert(h == g.header_words(saved_times));
    assert(h[0] == wordio::word_at(buf, 0));
    assert(h[5] == wordio::word_at(buf, 10));
    assert(h[1] == wordio::word_at(buf, 2));
    assert(h[2] == wordio::word_at(buf, 4));
    assert(h[3] == wordio::word_at(buf, 6));
    assert(h[4] == wordio::word_at(buf, 8));
    assert(h[6] == wordio::word_at(buf, 12));
    assert(h[7] == wordio::word_at(buf, 14));
    assert(h[8] == wordio::word_at(buf, 16));
    assert(h[9] == wordio::word_at(buf, 18));
    assert(h[10] == wordio::word_at(buf, 20));
    assert(h[12] == wordio::word_at(buf, 24));
    assert(h[13] == wordio::word_at(buf, 26));
    assert(h[14] == wordio::word_at(buf, 28));
    assert(h[15] == wordio::word_at(buf, 30));
    assert(h[16] == wordio::word_at(buf, 32));
    if i < 6 {
        crate::roles::law_experience_tables_layout(g.exp, buf, 124, i);
        crate::roles::law_roles_layout(g.game.player_roles, buf, 508, i, 0);
    }
    if i < 5 {
        assert(g.poison_status@[0]@[i] == PoisonStatus::decoded(buf, 1408 + 20 * 0 + 4 * i));
    }
    if i < 16 {
        assert(g.poison_status@[i]@[0] == PoisonStatus::decoded(buf, 1408 + 20 * i + 4 * 0));
    }
}

/// A game is loaded from a slot other than 0 whose file is long enough; else a
/// new one starts: in the first scene, which it enters, with nobody but the
/// first role, and with nothing held, earned or suffered.
pub proof fn law_games_are_loaded_or_new(before: Globals, after: Globals, slot: i32, save: Option<&[u8]>, playtime: Option<&[u8]>, i: int)
    requires
        after.set_up_from(&before, slot, save, playtime),
        0 <= slot < 256,
        0 <= i < 256,
    ensures
        after.current_save_slot == slot,
        !after.in_battle,
        after.cur_inv_menu_item == 0,
        slot != 0 && (save matches Some(b) && b@.len() >= 12864) ==> !after.entering_scene && after.cash == wordio::dword_at(
            save->0@,
            40,
        ) && after.num_scene == wordio::word_at(save->0@, 8),
        slot == 0 || save is None || save->0@.len() < 12864 ==> {
            &&& after.num_scene == 1
            &&& after.entering_scene
            &&& after.cash == 0
            &&& after.playtime_secs == 0
            &&& after.max_party_member_index == 0
            &&& after.follower_num == 0
            &&& after.chase_range == 1
            &&& after.viewport == (0i32, 0i32)
            &&& after.inventory@[i].item == 0 && after.inventory@[i].amount == 0
            &&& i < 6 ==> after.exp.primary_exp@[i].exp == 0 && after.exp.primary_exp@[i].level == after.game.player_roles.level@[i]
            &&& i < 16 ==> after.poison_status@[i]@[0].poison_id == 0
        },
        i < 6 ==> after.player_status@[i]@[0] == 0,
{
    if i < 6 {
        assert(after.exp.group(0) == after.exp.primary_exp@);
        if !Globals::slot_loads(slot, save) {
            assert(after.exp.group(0)[i] == (Experience { level: after.game.player_roles.level@[i], ..Experience::zero() }));
        }
        assert(after.player_status@[i]@[0] == 0);
    }
}

} // verus!
