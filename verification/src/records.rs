//! The records of the game's data files: what they hold and how they are laid
//! out in words.

use vstd::prelude::*;

use crate::wordio;
use crate::wordio::{WordReader, WordWriter};

verus! {

pub const MAX_PLAYERS_IN_PARTY: usize = 3;
pub const MAX_PLAYER_ROLES: usize = 6;
pub const MAX_PLAYABLE_PLAYER_ROLES: usize = 5;
pub const MAX_INVENTORY: usize = 256;
pub const MAX_STORE_ITEM: usize = 9;
pub const NUM_MAGIC_ELEMENTAL: usize = 5;
pub const MAX_ENEMIES_IN_TEAM: usize = 5;
pub const MAX_PLAYER_EQUIPMENTS: usize = 6;
pub const MAX_PLAYER_MAGICS: usize = 32;
pub const MAX_SCENES: usize = 300;
pub const MAX_OBJECTS: usize = 600;
pub const MAX_EVENT_OBJECTS: usize = 5500;
pub const MAX_POISONS: usize = 16;
pub const MAX_LEVELS: usize = 99;
pub const MINIMAL_WORD_COUNT: usize = MAX_OBJECTS + 13;

/// An object placed in a scene: where it stands, what it looks like and which
/// scripts it runs.
#[derive(Clone, Copy, Debug, PartialEq, Eq, Structural)]
pub struct EventObject {
    pub vanish_time: i16,
    pub x: u16,
    pub y: u16,
    pub layer: i16,
    pub trigger_script: u16,
    pub auto_script: u16,
    pub state: i16,
    pub trigger_mode: u16,
    pub sprite_num: u16,
    pub sprite_frames: u16,
    pub direction: u16,
    pub current_frame_num: u16,
    pub script_idle_frame: u16,
    pub sprite_ptr_offset: u16,
    pub sprite_frames_auto: u16,
    pub script_idle_frame_count_auto: u16,
}

impl Default for EventObject {
    fn default() -> (v: EventObject)
        ensures
            v == EventObject::zero(),
    {
        EventObject { vanish_time: 0, x: 0, y: 0, layer: 0, trigger_script: 0, auto_script: 0, state: 0, trigger_mode: 0, sprite_num: 0, sprite_frames: 0, direction: 0, current_frame_num: 0, script_idle_frame: 0, sprite_ptr_offset: 0, sprite_frames_auto: 0, script_idle_frame_count_auto: 0 }
    }
}

impl EventObject {
    pub const BYTES: usize = 32;

    /// The value whose fields are all 0.
    pub open spec fn zero() -> EventObject {
        EventObject { vanish_time: 0, x: 0, y: 0, layer: 0, trigger_script: 0, auto_script: 0, state: 0, trigger_mode: 0, sprite_num: 0, sprite_frames: 0, direction: 0, current_frame_num: 0, script_idle_frame: 0, sprite_ptr_offset: 0, sprite_frames_auto: 0, script_idle_frame_count_auto: 0 }
    }

    /// The record that the 16 words at byte offset `at` spell.
    pub open spec fn decoded(buf: Seq<u8>, at: int) -> EventObject {
        EventObject {
            vanish_time: wordio::word_at(buf, at) as i16,
            x: wordio::word_at(buf, at + 2),
            y: wordio::word_at(buf, at + 4),
            layer: wordio::word_at(buf, at + 6) as i16,
            trigger_script: wordio::word_at(buf, at + 8),
            auto_script: wordio::word_at(buf, at + 10),
            state: wordio::word_at(buf, at + 12) as i16,
            trigger_mode: wordio::word_at(buf, at + 14),
            sprite_num: wordio::word_at(buf, at + 16),
            sprite_frames: wordio::word_at(buf, at + 18),
            direction: wordio::word_at(buf, at + 20),
            current_frame_num: wordio::word_at(buf, at + 22),
            script_idle_frame: wordio::word_at(buf, at + 24),
            sprite_ptr_offset: wordio::word_at(buf, at + 26),
            sprite_frames_auto: wordio::word_at(buf, at + 28),
            script_idle_frame_count_auto: wordio::word_at(buf, at + 30),
        }
    }

    pub(crate) fn read(r: &mut WordReader) -> (v: EventObject)
        requires
            0 <= old(r).offset() <= usize::MAX - 32,
        ensures
            v == EventObject::decoded(old(r).bytes(), old(r).offset()),
            final(r).advanced(old(r), 32),
    {
        EventObject {
            vanish_time: r.i16(),
            x: r.u16(),
            y: r.u16(),
            layer: r.i16(),
            trigger_script: r.u16(),
            auto_script: r.u16(),
            state: r.i16(),
            trigger_mode: r.u16(),
            sprite_num: r.u16(),
            sprite_frames: r.u16(),
            direction: r.u16(),
            current_frame_num: r.u16(),
            script_idle_frame: r.u16(),
            sprite_ptr_offset: r.u16(),
            sprite_frames_auto: r.u16(),
            script_idle_frame_count_auto: r.u16(),
        }
    }

    pub(crate) fn write(&self, w: &mut WordWriter)
        ensures
            final(w).grew(old(w), 32),
            EventObject::decoded(final(w).buf@, old(w).buf@.len() as int) == *self,
    {
        w.i16(self.vanish_time);
        w.u16(self.x);
        w.u16(self.y);
        w.i16(self.layer);
        w.u16(self.trigger_script);
        w.u16(self.auto_script);
        w.i16(self.state);
        w.u16(self.trigger_mode);
        w.u16(self.sprite_num);
        w.u16(self.sprite_frames);
        w.u16(self.direction);
        w.u16(self.current_frame_num);
        w.u16(self.script_idle_frame);
        w.u16(self.sprite_ptr_offset);
        w.u16(self.sprite_frames_auto);
        w.u16(self.script_idle_frame_count_auto);
    }


}

/// A scene: its map, its scripts and the first of its event objects.
#[derive(Clone, Copy, Debug, PartialEq, Eq, Structural)]
pub struct Scene {
    pub map_num: u16,
    pub script_on_enter: u16,
    pub script_on_teleport: u16,
    pub event_object_index: u16,
}

impl Default for Scene {
    fn default() -> (v: Scene)
        ensures
            v == Scene::zero(),
    {
        Scene { map_num: 0, script_on_enter: 0, script_on_teleport: 0, event_object_index: 0 }
    }
}

impl Scene {
    /// The value whose fields are all 0.
    pub open spec fn zero() -> Scene {
        Scene { map_num: 0, script_on_enter: 0, script_on_teleport: 0, event_object_index: 0 }
    }

    /// The record that the 4 words at byte offset `at` spell.
    pub open spec fn decoded(buf: Seq<u8>, at: int) -> Scene {
        Scene {
            map_num: wordio::word_at(buf, at),
            script_on_enter: wordio::word_at(buf, at + 2),
            script_on_teleport: wordio::word_at(buf, at + 4),
            event_object_index: wordio::word_at(buf, at + 6),
        }
    }

    pub(crate) fn read(r: &mut WordReader) -> (v: Scene)
        requires
            0 <= old(r).offset() <= usize::MAX - 8,
        ensures
            v == Scene::decoded(old(r).bytes(), old(r).offset()),
            final(r).advanced(old(r), 8),
    {
        Scene {
            map_num: r.u16(),
            script_on_enter: r.u16(),
            script_on_teleport: r.u16(),
            event_object_index: r.u16(),
        }
    }

    pub(crate) fn write(&self, w: &mut WordWriter)
        ensures
            final(w).grew(old(w), 8),
            Scene::decoded(final(w).buf@, old(w).buf@.len() as int) == *self,
    {
        w.u16(self.map_num);
        w.u16(self.script_on_enter);
        w.u16(self.script_on_teleport);
        w.u16(self.event_object_index);
    }


}

/// A magic effect. `specific` holds either the effect to summon or a signed
/// layer offset.
#[derive(Clone, Copy, Debug, PartialEq, Eq, Structural)]
pub struct MagicData {
    pub effect: u16,
    pub magic_type: u16,
    pub x_offset: u16,
    pub y_offset: u16,
    pub specific: u16,
    pub speed: i16,
    pub keep_effect: u16,
    pub fire_delay: u16,
    pub effect_times: u16,
    pub shake: u16,
    pub wave: u16,
    pub unknown: u16,
    pub cost_mp: u16,
    pub base_damage: u16,
    pub elemental: u16,
    pub sound: i16,
}

impl Default for MagicData {
    fn default() -> (v: MagicData)
        ensures
            v == MagicData::zero(),
    {
        MagicData { effect: 0, magic_type: 0, x_offset: 0, y_offset: 0, specific: 0, speed: 0, keep_effect: 0, fire_delay: 0, effect_times: 0, shake: 0, wave: 0, unknown: 0, cost_mp: 0, base_damage: 0, elemental: 0, sound: 0 }
    }
}

impl MagicData {
    pub const BYTES: usize = 32;

    /// The value whose fields are all 0.
    pub open spec fn zero() -> MagicData {
        MagicData { effect: 0, magic_type: 0, x_offset: 0, y_offset: 0, specific: 0, speed: 0, keep_effect: 0, fire_delay: 0, effect_times: 0, shake: 0, wave: 0, unknown: 0, cost_mp: 0, base_damage: 0, elemental: 0, sound: 0 }
    }

    /// The record that the 16 words at byte offset `at` spell.
    pub open spec fn decoded(buf: Seq<u8>, at: int) -> MagicData {
        MagicData {
            effect: wordio::word_at(buf, at),
            magic_type: wordio::word_at(buf, at + 2),
            x_offset: wordio::word_at(buf, at + 4),
            y_offset: wordio::word_at(buf, at + 6),
            specific: wordio::word_at(buf, at + 8),
            speed: wordio::word_at(buf, at + 10) as i16,
            keep_effect: wordio::word_at(buf, at + 12),
            fire_delay: wordio::word_at(buf, at + 14),
            effect_times: wordio::word_at(buf, at + 16),
            shake: wordio::word_at(buf, at + 18),
            wave: wordio::word_at(buf, at + 20),
            unknown: wordio::word_at(buf, at + 22),
            cost_mp: wordio::word_at(buf, at + 24),
            base_damage: wordio::word_at(buf, at + 26),
            elemental: wordio::word_at(buf, at + 28),
            sound: wordio::word_at(buf, at + 30) as i16,
        }
    }

    pub(crate) fn read(r: &mut WordReader) -> (v: MagicData)
        requires
            0 <= old(r).offset() <= usize::MAX - 32,
        ensures
            v == MagicData::decoded(old(r).bytes(), old(r).offset()),
            final(r).advanced(old(r), 32),
    {
        MagicData {
            effect: r.u16(),
            magic_type: r.u16(),
            x_offset: r.u16(),
            y_offset: r.u16(),
            specific: r.u16(),
            speed: r.i16(),
            keep_effect: r.u16(),
            fire_delay: r.u16(),
            effect_times: r.u16(),
            shake: r.u16(),
            wave: r.u16(),
            unknown: r.u16(),
            cost_mp: r.u16(),
            base_damage: r.u16(),
            elemental: r.u16(),
            sound: r.i16(),
        }
    }

    pub fn summon_effect(&self) -> (v: u16)
        ensures
            v == self.specific,
    {
        self.specific
    }

    pub fn layer_offset(&self) -> (v: i16)
        ensures
            v == self.specific as i16,
    {
        self.specific as i16
    }
}

/// One inventory slot.
#[derive(Clone, Copy, Debug, PartialEq, Eq, Structural)]
pub struct Inventory {
    pub item: u16,
    pub amount: u16,
    pub amount_in_use: u16,
}

impl Default for Inventory {
    fn default() -> (v: Inventory)
        ensures
            v == Inventory::zero(),
    {
        Inventory { item: 0, amount: 0, amount_in_use: 0 }
    }
}

impl Inventory {
    /// The value whose fields are all 0.
    pub open spec fn zero() -> Inventory {
        Inventory { item: 0, amount: 0, amount_in_use: 0 }
    }

    /// The record that the 3 words at byte offset `at` spell.
    pub open spec fn decoded(buf: Seq<u8>, at: int) -> Inventory {
        Inventory {
            item: wordio::word_at(buf, at),
            amount: wordio::word_at(buf, at + 2),
            amount_in_use: wordio::word_at(buf, at + 4),
        }
    }

    pub(crate) fn read(r: &mut WordReader) -> (v: Inventory)
        requires
            0 <= old(r).offset() <= usize::MAX - 6,
        ensures
            v == Inventory::decoded(old(r).bytes(), old(r).offset()),
            final(r).advanced(old(r), 6),
    {
        Inventory {
            item: r.u16(),
            amount: r.u16(),
            amount_in_use: r.u16(),
        }
    }

    pub(crate) fn write(&self, w: &mut WordWriter)
        ensures
            final(w).grew(old(w), 6),
            Inventory::decoded(final(w).buf@, old(w).buf@.len() as int) == *self,
    {
        w.u16(self.item);
        w.u16(self.amount);
        w.u16(self.amount_in_use);
    }


}

/// A party member: the role played, the screen position and the frame shown.
#[derive(Clone, Copy, Debug, PartialEq, Eq, Structural)]
pub struct Party {
    pub player_role: u16,
    pub x: i16,
    pub y: i16,
    pub frame: u16,
    pub image_offset: u16,
}

impl Default for Party {
    fn default() -> (v: Party)
        ensures
            v == Party::zero(),
    {
        Party { player_role: 0, x: 0, y: 0, frame: 0, image_offset: 0 }
    }
}

impl Party {
    /// The value whose fields are all 0.
    pub open spec fn zero() -> Party {
        Party { player_role: 0, x: 0, y: 0, frame: 0, image_offset: 0 }
    }

    /// The record that the 5 words at byte offset `at` spell.
    pub open spec fn decoded(buf: Seq<u8>, at: int) -> Party {
        Party {
            player_role: wordio::word_at(buf, at),
            x: wordio::word_at(buf, at + 2) as i16,
            y: wordio::word_at(buf, at + 4) as i16,
            frame: wordio::word_at(buf, at + 6),
            image_offset: wordio::word_at(buf, at + 8),
        }
    }

    pub(crate) fn read(r: &mut WordReader) -> (v: Party)
        requires
            0 <= old(r).offset() <= usize::MAX - 10,
        ensures
            v == Party::decoded(old(r).bytes(), old(r).offset()),
            final(r).advanced(old(r), 10),
    {
        Party {
            player_role: r.u16(),
            x: r.i16(),
            y: r.i16(),
            frame: r.u16(),
            image_offset: r.u16(),
        }
    }

    pub(crate) fn write(&self, w: &mut WordWriter)
        ensures
            final(w).grew(old(w), 10),
            Party::decoded(final(w).buf@, old(w).buf@.len() as int) == *self,
    {
        w.u16(self.player_role);
        w.i16(self.x);
        w.i16(self.y);
        w.u16(self.frame);
        w.u16(self.image_offset);
    }


}

/// Where the party leader stood a few steps ago.
#[derive(Clone, Copy, Debug, PartialEq, Eq, Structural)]
pub struct Trail {
    pub x: u16,
    pub y: u16,
    pub direction: u16,
}

impl Default for Trail {
    fn default() -> (v: Trail)
        ensures
            v == Trail::zero(),
    {
        Trail { x: 0, y: 0, direction: 0 }
    }
}

impl Trail {
    /// The value whose fields are all 0.
    pub open spec fn zero() -> Trail {
        Trail { x: 0, y: 0, direction: 0 }
    }

    /// The record that the 3 words at byte offset `at` spell.
    pub open spec fn decoded(buf: Seq<u8>, at: int) -> Trail {
        Trail {
            x: wordio::word_at(buf, at),
            y: wordio::word_at(buf, at + 2),
            direction: wordio::word_at(buf, at + 4),
        }
    }

    pub(crate) fn read(r: &mut WordReader) -> (v: Trail)
        requires
            0 <= old(r).offset() <= usize::MAX - 6,
        ensures
            v == Trail::decoded(old(r).bytes(), old(r).offset()),
            final(r).advanced(old(r), 6),
    {
        Trail {
            x: r.u16(),
            y: r.u16(),
            direction: r.u16(),
        }
    }

    pub(crate) fn write(&self, w: &mut WordWriter)
        ensures
            final(w).grew(old(w), 6),
            Trail::decoded(final(w).buf@, old(w).buf@.len() as int) == *self,
    {
        w.u16(self.x);
        w.u16(self.y);
        w.u16(self.direction);
    }


}

/// Experience in one discipline.
#[derive(Clone, Copy, Debug, PartialEq, Eq, Structural)]
pub struct Experience {
    pub exp: u16,
    pub reserved: u16,
    pub level: u16,
    pub count: u16,
}

impl Default for Experience {
    fn default() -> (v: Experience)
        ensures
            v == Experience::zero(),
    {
        Experience { exp: 0, reserved: 0, level: 0, count: 0 }
    }
}

impl Experience {
    /// The value whose fields are all 0.
    pub open spec fn zero() -> Experience {
        Experience { exp: 0, reserved: 0, level: 0, count: 0 }
    }

    /// The record that the 4 words at byte offset `at` spell.
    pub open spec fn decoded(buf: Seq<u8>, at: int) -> Experience {
        Experience {
            exp: wordio::word_at(buf, at),
            reserved: wordio::word_at(buf, at + 2),
            level: wordio::word_at(buf, at + 4),
            count: wordio::word_at(buf, at + 6),
        }
    }

    pub(crate) fn read(r: &mut WordReader) -> (v: Experience)
        requires
            0 <= old(r).offset() <= usize::MAX - 8,
        ensures
            v == Experience::decoded(old(r).bytes(), old(r).offset()),
            final(r).advanced(old(r), 8),
    {
        Experience {
            exp: r.u16(),
            reserved: r.u16(),
            level: r.u16(),
            count: r.u16(),
        }
    }

    pub(crate) fn write(&self, w: &mut WordWriter)
        ensures
            final(w).grew(old(w), 8),
            Experience::decoded(final(w).buf@, old(w).buf@.len() as int) == *self,
    {
        w.u16(self.exp);
        w.u16(self.reserved);
        w.u16(self.level);
        w.u16(self.count);
    }


}

/// A 7-word game object. The data files hold 6 words: the last of them is the
/// flag word `data[6]`, and `data[5]` is 0 in a freshly loaded object.
#[derive(Clone, Copy, Debug, PartialEq, Eq)]
pub struct GameObject {
    pub data: [u16; 7],
}

impl Default for GameObject {
    fn default() -> (v: GameObject)
        ensures
            forall|i: int| 0 <= i < 7 ==> v.data@[i] == 0,
    {
        GameObject { data: [0u16; 7] }
    }
}

impl GameObject {
    /// The 6 words under which the object is stored.
    pub open spec fn stored(self) -> Seq<u16> {
        seq![self.data@[0], self.data@[1], self.data@[2], self.data@[3], self.data@[4], self.data@[6]]
    }

    /// The 6 words at byte offset `at` are those of this object.
    pub open spec fn held_at(self, buf: Seq<u8>, at: int) -> bool {
        self.stored() == wordio::words(buf, at, 6)
    }

    /// Expand 6 stored words into an object.
    pub fn from_dos(dos: [u16; 6]) -> (v: GameObject)
        ensures
            v.stored() == dos@,
            v.data@[5] == 0,
    {
        let v: GameObject = GameObject { data: [dos[0], dos[1], dos[2], dos[3], dos[4], 0, dos[5]] };
        assert(v.stored() =~= dos@);
        v
    }

    /// The 6 words to store.
    pub fn to_dos(self) -> (dos: [u16; 6])
        ensures
            dos@ == self.stored(),
    {
        let dos: [u16; 6] = [self.data[0], self.data[1], self.data[2], self.data[3], self.data[4], self.data[6]];
        assert(dos@ =~= self.stored());
        dos
    }

    pub(crate) fn read(r: &mut WordReader) -> (v: GameObject)
        requires
            0 <= old(r).offset() <= usize::MAX - 12,
        ensures
            v.held_at(old(r).bytes(), old(r).offset()),
            v.data@[5] == 0,
            final(r).advanced(old(r), 12),
    {
        let dos: [u16; 6] = read_row(r);
        GameObject::from_dos(dos)
    }

    pub(crate) fn write(&self, w: &mut WordWriter)
        ensures
            final(w).grew(old(w), 12),
            self.held_at(final(w).buf@, old(w).buf@.len() as int),
    {
        let dos: [u16; 6] = self.to_dos();
        write_row(w, &dos);
    }

    // As a player.

    pub fn player_script_on_friend_death(&self) -> (v: u16)
        ensures
            v == self.data@[2],
    {
        self.data[2]
    }

    pub fn player_script_on_dying(&self) -> (v: u16)
        ensures
            v == self.data@[3],
    {
        self.data[3]
    }

    pub fn set_player_script_on_friend_death(&mut self, v: u16)
        ensures
            final(self).data@ == old(self).data@.update(2, v),
    {
        self.data[2] = v;
    }

    pub fn set_player_script_on_dying(&mut self, v: u16)
        ensures
            final(self).data@ == old(self).data@.update(3, v),
    {
        self.data[3] = v;
    }

    // As an item: bitmap, price, use, equip and throw scripts, flags.

    pub fn item_bitmap(&self) -> (v: u16)
        ensures
            v == self.data@[0],
    {
        self.data[0]
    }

    pub fn item_price(&self) -> (v: u16)
        ensures
            v == self.data@[1],
    {
        self.data[1]
    }

    pub fn item_script_on_use(&self) -> (v: u16)
        ensures
            v == self.data@[2],
    {
        self.data[2]
    }

    pub fn item_script_on_equip(&self) -> (v: u16)
        ensures
            v == self.data@[3],
    {
        self.data[3]
    }

    pub fn item_script_on_throw(&self) -> (v: u16)
        ensures
            v == self.data@[4],
    {
        self.data[4]
    }

    pub fn item_flags(&self) -> (v: u16)
        ensures
            v == self.data@[6],
    {
        self.data[6]
    }

    pub fn set_item_script_on_use(&mut self, v: u16)
        ensures
            final(self).data@ == old(self).data@.update(2, v),
    {
        self.data[2] = v;
    }

    pub fn set_item_script_on_equip(&mut self, v: u16)
        ensures
            final(self).data@ == old(self).data@.update(3, v),
    {
        self.data[3] = v;
    }

    pub fn set_item_script_on_throw(&mut self, v: u16)
        ensures
            final(self).data@ == old(self).data@.update(4, v),
    {
        self.data[4] = v;
    }

    // As a magic: number, success and use scripts, flags.

    pub fn magic_number(&self) -> (v: u16)
        ensures
            v == self.data@[0],
    {
        self.data[0]
    }

    pub fn magic_script_on_success(&self) -> (v: u16)
        ensures
            v == self.data@[2],
    {
        self.data[2]
    }

    pub fn magic_script_on_use(&self) -> (v: u16)
        ensures
            v == self.data@[3],
    {
        self.data[3]
    }

    pub fn magic_flags(&self) -> (v: u16)
        ensures
            v == self.data@[6],
    {
        self.data[6]
    }

    pub fn set_magic_script_on_success(&mut self, v: u16)
        ensures
            final(self).data@ == old(self).data@.update(2, v),
    {
        self.data[2] = v;
    }

    pub fn set_magic_script_on_use(&mut self, v: u16)
        ensures
            final(self).data@ == old(self).data@.update(3, v),
    {
        self.data[3] = v;
    }

    // As an enemy.

    pub fn enemy_id(&self) -> (v: u16)
        ensures
            v == self.data@[0],
    {
        self.data[0]
    }

    pub fn enemy_resistance_to_sorcery(&self) -> (v: u16)
        ensures
            v == self.data@[1],
    {
        self.data[1]
    }

    pub fn enemy_script_on_turn_start(&self) -> (v: u16)
        ensures
            v == self.data@[2],
    {
        self.data[2]
    }

    pub fn enemy_script_on_battle_end(&self) -> (v: u16)
        ensures
            v == self.data@[3],
    {
        self.data[3]
    }

    pub fn enemy_script_on_ready(&self) -> (v: u16)
        ensures
            v == self.data@[4],
    {
        self.data[4]
    }

    pub fn set_enemy_script_on_turn_start(&mut self, v: u16)
        ensures
            final(self).data@ == old(self).data@.update(2, v),
    {
        self.data[2] = v;
    }

    pub fn set_enemy_script_on_battle_end(&mut self, v: u16)
        ensures
            final(self).data@ == old(self).data@.update(3, v),
    {
        self.data[3] = v;
    }

    pub fn set_enemy_script_on_ready(&mut self, v: u16)
        ensures
            final(self).data@ == old(self).data@.update(4, v),
    {
        self.data[4] = v;
    }

    // As a poison.

    pub fn poison_level(&self) -> (v: u16)
        ensures
            v == self.data@[0],
    {
        self.data[0]
    }

    pub fn poison_color(&self) -> (v: u16)
        ensures
            v == self.data@[1],
    {
        self.data[1]
    }

    pub fn poison_player_script(&self) -> (v: u16)
        ensures
            v == self.data@[2],
    {
        self.data[2]
    }

    pub fn poison_enemy_script(&self) -> (v: u16)
        ensures
            v == self.data@[4],
    {
        self.data[4]
    }

    pub fn set_poison_player_script(&mut self, v: u16)
        ensures
            final(self).data@ == old(self).data@.update(2, v),
    {
        self.data[2] = v;
    }

    pub fn set_poison_enemy_script(&mut self, v: u16)
        ensures
            final(self).data@ == old(self).data@.update(4, v),
    {
        self.data[4] = v;
    }

}

/// Storing an object and loading it again keeps all of it but `data[5]`,
/// which comes back as 0.
pub proof fn law_object_survives_storage(o: GameObject, stored: Seq<u16>, back: GameObject)
    requires
        stored == o.stored(),
        back.stored() == stored,
        back.data@[5] == 0,
    ensures
        back.data@ == o.data@.update(5, 0),
        o.data@[5] == 0 ==> back == o,
{
    assert(forall|i: int| 0 <= i < 6 ==> back.stored()[i] == o.stored()[i]);
    assert(back.stored()[0] == back.data@[0]);
    assert(back.stored()[1] == back.data@[1]);
    assert(back.stored()[2] == back.data@[2]);
    assert(back.stored()[3] == back.data@[3]);
    assert(back.stored()[4] == back.data@[4]);
    assert(back.stored()[5] == back.data@[6]);
    assert(back.data@ =~= o.data@.update(5, 0));
    if o.data@[5] == 0 {
        assert(back.data =~= o.data);
    }
}

/// Read six words.
pub(crate) fn read_row(r: &mut WordReader) -> (row: [u16; 6])
    requires
        0 <= old(r).offset() <= usize::MAX - 12,
    ensures
        row@ == wordio::words(old(r).bytes(), old(r).offset(), 6),
        final(r).advanced(old(r), 12),
{
    let row: [u16; 6] = [r.u16(), r.u16(), r.u16(), r.u16(), r.u16(), r.u16()];
    assert(row@ =~= wordio::words(old(r).bytes(), old(r).offset(), 6));
    row
}

/// Append six words.
pub(crate) fn write_row(w: &mut WordWriter, row: &[u16; 6])
    ensures
        final(w).grew(old(w), 12),
        row@ == wordio::words(final(w).buf@, old(w).buf@.len() as int, 6),
{
    w.u16(row[0]);
    w.u16(row[1]);
    w.u16(row[2]);
    w.u16(row[3]);
    w.u16(row[4]);
    w.u16(row[5]);
    assert(row@ =~= wordio::words(w.buf@, old(w).buf@.len() as int, 6));
}

/// A script instruction.
#[derive(Clone, Copy, Debug, PartialEq, Eq)]
pub struct ScriptEntry {
    pub operation: u16,
    pub operand: [u16; 3],
}

impl Default for ScriptEntry {
    fn default() -> (v: ScriptEntry)
        ensures
            v.operation == 0,
            forall|i: int| 0 <= i < 3 ==> v.operand@[i] == 0,
    {
        ScriptEntry { operation: 0, operand: [0u16; 3] }
    }
}

impl ScriptEntry {
    /// The 4 words at byte offset `at` are those of this instruction.
    pub open spec fn held_at(self, buf: Seq<u8>, at: int) -> bool {
        &&& self.operation == wordio::word_at(buf, at)
        &&& self.operand@ == wordio::words(buf, at + 2, 3)
    }

    pub(crate) fn read(r: &mut WordReader) -> (v: ScriptEntry)
        requires
            0 <= old(r).offset() <= usize::MAX - 8,
        ensures
            v.held_at(old(r).bytes(), old(r).offset()),
            final(r).advanced(old(r), 8),
    {
        let operation: u16 = r.u16();
        let operand: [u16; 3] = [r.u16(), r.u16(), r.u16()];
        assert(operand@ =~= wordio::words(old(r).bytes(), old(r).offset() + 2, 3));
        ScriptEntry { operation, operand }
    }
}

/// What a store sells.
#[derive(Clone, Copy, Debug, PartialEq, Eq)]
pub struct Store {
    pub items: [u16; MAX_STORE_ITEM],
}

impl Default for Store {
    fn default() -> (v: Store)
        ensures
            forall|i: int| 0 <= i < 9 ==> v.items@[i] == 0,
    {
        Store { items: [0u16; 9] }
    }
}

impl Store {
    /// The 9 words at byte offset `at` are those of this store.
    pub open spec fn held_at(self, buf: Seq<u8>, at: int) -> bool {
        self.items@ == wordio::words(buf, at, 9)
    }

    pub(crate) fn read(r: &mut WordReader) -> (v: Store)
        requires
            0 <= old(r).offset() <= usize::MAX - 18,
        ensures
            v.held_at(old(r).bytes(), old(r).offset()),
            final(r).advanced(old(r), 18),
    {
        let items: [u16; 9] = [
            r.u16(), r.u16(), r.u16(), r.u16(), r.u16(), r.u16(), r.u16(), r.u16(), r.u16(),
        ];
        assert(items@ =~= wordio::words(old(r).bytes(), old(r).offset(), 9));
        Store { items }
    }
}

/// An enemy: its looks, its sounds and its strength.
#[derive(Clone, Copy, Debug, PartialEq, Eq)]
pub struct Enemy {
    pub idle_frames: u16,
    pub magic_frames: u16,
    pub attack_frames: u16,
    pub idle_anim_speed: u16,
    pub act_wait_frames: u16,
    pub y_pos_offset: u16,
    pub attack_sound: i16,
    pub action_sound: i16,
    pub magic_sound: i16,
    pub death_sound: i16,
    pub call_sound: i16,
    pub health: u16,
    pub exp: u16,
    pub cash: u16,
    pub level: u16,
    pub magic: u16,
    pub magic_rate: u16,
    pub attack_equiv_item: u16,
    pub attack_equiv_item_rate: u16,
    pub steal_item: u16,
    pub steal_item_count: u16,
    pub attack_strength: u16,
    pub magic_strength: u16,
    pub defense: u16,
    pub dexterity: u16,
    pub flee_rate: u16,
    pub poison_resistance: u16,
    pub elem_resistance: [u16; NUM_MAGIC_ELEMENTAL],
    pub physical_resistance: u16,
    pub dual_move: u16,
    pub collect_value: u16,
}

impl Default for Enemy {
    fn default() -> (v: Enemy)
        ensures
            v == Enemy::zero_but(v.elem_resistance),
            forall|i: int| 0 <= i < 5 ==> v.elem_resistance@[i] == 0,
    {
        Enemy {
            idle_frames: 0,
            magic_frames: 0,
            attack_frames: 0,
            idle_anim_speed: 0,
            act_wait_frames: 0,
            y_pos_offset: 0,
            attack_sound: 0,
            action_sound: 0,
            magic_sound: 0,
            death_sound: 0,
            call_sound: 0,
            health: 0,
            exp: 0,
            cash: 0,
            level: 0,
            magic: 0,
            magic_rate: 0,
            attack_equiv_item: 0,
            attack_equiv_item_rate: 0,
            steal_item: 0,
            steal_item_count: 0,
            attack_strength: 0,
            magic_strength: 0,
            defense: 0,
            dexterity: 0,
            flee_rate: 0,
            poison_resistance: 0,
            elem_resistance: [0u16; 5],
            physical_resistance: 0,
            dual_move: 0,
            collect_value: 0,
        }
    }
}

impl Enemy {
    pub const BYTES: usize = 70;

    /// The enemy whose fields are 0 but for the given resistances.
    pub open spec fn zero_but(elem_resistance: [u16; 5]) -> Enemy {
        Enemy {
            idle_frames: 0,
            magic_frames: 0,
            attack_frames: 0,
            idle_anim_speed: 0,
            act_wait_frames: 0,
            y_pos_offset: 0,
            attack_sound: 0,
            action_sound: 0,
            magic_sound: 0,
            death_sound: 0,
            call_sound: 0,
            health: 0,
            exp: 0,
            cash: 0,
            level: 0,
            magic: 0,
            magic_rate: 0,
            attack_equiv_item: 0,
            attack_equiv_item_rate: 0,
            steal_item: 0,
            steal_item_count: 0,
            attack_strength: 0,
            magic_strength: 0,
            defense: 0,
            dexterity: 0,
            flee_rate: 0,
            poison_resistance: 0,
            elem_resistance,
            physical_resistance: 0,
            dual_move: 0,
            collect_value: 0,
        }
    }

    /// The 35 words at byte offset `at` are those of this enemy.
    pub open spec fn held_at(self, buf: Seq<u8>, at: int) -> bool {
        &&& self.idle_frames == wordio::word_at(buf, at)
        &&& self.magic_frames == wordio::word_at(buf, at + 2)
        &&& self.attack_frames == wordio::word_at(buf, at + 4)
        &&& self.idle_anim_speed == wordio::word_at(buf, at + 6)
        &&& self.act_wait_frames == wordio::word_at(buf, at + 8)
        &&& self.y_pos_offset == wordio::word_at(buf, at + 10)
        &&& self.attack_sound == wordio::word_at(buf, at + 12) as i16
        &&& self.action_sound == wordio::word_at(buf, at + 14) as i16
        &&& self.magic_sound == wordio::word_at(buf, at + 16) as i16
        &&& self.death_sound == wordio::word_at(buf, at + 18) as i16
        &&& self.call_sound == wordio::word_at(buf, at + 20) as i16
        &&& self.health == wordio::word_at(buf, at + 22)
        &&& self.exp == wordio::word_at(buf, at + 24)
        &&& self.cash == wordio::word_at(buf, at + 26)
        &&& self.level == wordio::word_at(buf, at + 28)
        &&& self.magic == wordio::word_at(buf, at + 30)
        &&& self.magic_rate == wordio::word_at(buf, at + 32)
        &&& self.attack_equiv_item == wordio::word_at(buf, at + 34)
        &&& self.attack_equiv_item_rate == wordio::word_at(buf, at + 36)
        &&& self.steal_item == wordio::word_at(buf, at + 38)
        &&& self.steal_item_count == wordio::word_at(buf, at + 40)
        &&& self.attack_strength == wordio::word_at(buf, at + 42)
        &&& self.magic_strength == wordio::word_at(buf, at + 44)
        &&& self.defense == wordio::word_at(buf, at + 46)
        &&& self.dexterity == wordio::word_at(buf, at + 48)
        &&& self.flee_rate == wordio::word_at(buf, at + 50)
        &&& self.poison_resistance == wordio::word_at(buf, at + 52)
        &&& self.elem_resistance@ == wordio::words(buf, at + 54, 5)
        &&& self.physical_resistance == wordio::word_at(buf, at + 64)
        &&& self.dual_move == wordio::word_at(buf, at + 66)
        &&& self.collect_value == wordio::word_at(buf, at + 68)
    }

    pub(crate) fn read(r: &mut WordReader) -> (v: Enemy)
        requires
            0 <= old(r).offset() <= usize::MAX - 70,
        ensures
            v.held_at(old(r).bytes(), old(r).offset()),
            final(r).advanced(old(r), 70),
    {
        let v: Enemy = Enemy {
            idle_frames: r.u16(),
            magic_frames: r.u16(),
            attack_frames: r.u16(),
            idle_anim_speed: r.u16(),
            act_wait_frames: r.u16(),
            y_pos_offset: r.u16(),
            attack_sound: r.i16(),
            action_sound: r.i16(),
            magic_sound: r.i16(),
            death_sound: r.i16(),
            call_sound: r.i16(),
            health: r.u16(),
            exp: r.u16(),
            cash: r.u16(),
            level: r.u16(),
            magic: r.u16(),
            magic_rate: r.u16(),
            attack_equiv_item: r.u16(),
            attack_equiv_item_rate: r.u16(),
            steal_item: r.u16(),
            steal_item_count: r.u16(),
            attack_strength: r.u16(),
            magic_strength: r.u16(),
            defense: r.u16(),
            dexterity: r.u16(),
            flee_rate: r.u16(),
            poison_resistance: r.u16(),
            elem_resistance: [r.u16(), r.u16(), r.u16(), r.u16(), r.u16()],
            physical_resistance: r.u16(),
            dual_move: r.u16(),
            collect_value: r.u16(),
        };
        assert(v.elem_resistance@ =~= wordio::words(old(r).bytes(), old(r).offset() + 54, 5));
        v
    }
}

/// The enemies that fight together.
#[derive(Clone, Copy, Debug, PartialEq, Eq)]
pub struct EnemyTeam {
    pub enemy: [u16; MAX_ENEMIES_IN_TEAM],
}

impl Default for EnemyTeam {
    fn default() -> (v: EnemyTeam)
        ensures
            forall|i: int| 0 <= i < 5 ==> v.enemy@[i] == 0,
    {
        EnemyTeam { enemy: [0u16; 5] }
    }
}

impl EnemyTeam {
    /// The 5 words at byte offset `at` are those of this team.
    pub open spec fn held_at(self, buf: Seq<u8>, at: int) -> bool {
        self.enemy@ == wordio::words(buf, at, 5)
    }

    pub(crate) fn read(r: &mut WordReader) -> (v: EnemyTeam)
        requires
            0 <= old(r).offset() <= usize::MAX - 10,
        ensures
            v.held_at(old(r).bytes(), old(r).offset()),
            final(r).advanced(old(r), 10),
    {
        let enemy: [u16; 5] = [r.u16(), r.u16(), r.u16(), r.u16(), r.u16()];
        assert(enemy@ =~= wordio::words(old(r).bytes(), old(r).offset(), 5));
        EnemyTeam { enemy }
    }
}

/// A battle field: its wave effect and how it changes each element.
#[derive(Clone, Copy, Debug, PartialEq, Eq)]
pub struct BattleField {
    pub screen_wave: u16,
    pub magic_effect: [i16; NUM_MAGIC_ELEMENTAL],
}

impl Default for BattleField {
    fn default() -> (v: BattleField)
        ensures
            v.screen_wave == 0,
            forall|i: int| 0 <= i < 5 ==> v.magic_effect@[i] == 0,
    {
        BattleField { screen_wave: 0, magic_effect: [0i16; 5] }
    }
}

impl BattleField {
    /// The 6 words at byte offset `at` are those of this battle field.
    pub open spec fn held_at(self, buf: Seq<u8>, at: int) -> bool {
        &&& self.screen_wave == wordio::word_at(buf, at)
        &&& forall|i: int|
            0 <= i < 5 ==> #[trigger] self.magic_effect@[i] == wordio::word_at(buf, at + 2 + 2 * i) as i16
    }

    pub(crate) fn read(r: &mut WordReader) -> (v: BattleField)
        requires
            0 <= old(r).offset() <= usize::MAX - 12,
        ensures
            v.held_at(old(r).bytes(), old(r).offset()),
            final(r).advanced(old(r), 12),
    {
        BattleField {
            screen_wave: r.u16(),
            magic_effect: [r.i16(), r.i16(), r.i16(), r.i16(), r.i16()],
        }
    }
}

/// The magic that each playable role learns at a level: (level, magic) pairs.
#[derive(Clone, Copy, Debug, PartialEq, Eq)]
pub struct LevelUpMagicAll {
    pub m: [(u16, u16); MAX_PLAYABLE_PLAYER_ROLES],
}

impl Default for LevelUpMagicAll {
    fn default() -> (v: LevelUpMagicAll)
        ensures
            forall|i: int| 0 <= i < 5 ==> v.m@[i] == (0u16, 0u16),
    {
        LevelUpMagicAll { m: [(0u16, 0u16); 5] }
    }
}

impl LevelUpMagicAll {
    /// The 10 words at byte offset `at` are those of this entry.
    pub open spec fn held_at(self, buf: Seq<u8>, at: int) -> bool {
        forall|i: int|
            0 <= i < 5 ==> #[trigger] self.m@[i] == (wordio::word_at(buf, at + 4 * i), wordio::word_at(buf, at + 4 * i + 2))
    }

    pub(crate) fn read(r: &mut WordReader) -> (v: LevelUpMagicAll)
        requires
            0 <= old(r).offset() <= usize::MAX - 20,
        ensures
            v.held_at(old(r).bytes(), old(r).offset()),
            final(r).advanced(old(r), 20),
    {
        LevelUpMagicAll {
            m: [
                (r.u16(), r.u16()),
                (r.u16(), r.u16()),
                (r.u16(), r.u16()),
                (r.u16(), r.u16()),
                (r.u16(), r.u16()),
            ],
        }
    }
}

/// A poison that a party member suffers from.
#[derive(Clone, Copy, Debug, PartialEq, Eq, Structural)]
pub struct PoisonStatus {
    pub poison_id: u16,
    pub poison_script: u16,
}

impl Default for PoisonStatus {
    fn default() -> (v: PoisonStatus)
        ensures
            v == PoisonStatus::none(),
    {
        PoisonStatus { poison_id: 0, poison_script: 0 }
    }
}

impl PoisonStatus {
    /// No poison.
    pub open spec fn none() -> PoisonStatus {
        PoisonStatus { poison_id: 0, poison_script: 0 }
    }

    /// The status that the 2 words at byte offset `at` spell.
    pub open spec fn decoded(buf: Seq<u8>, at: int) -> PoisonStatus {
        PoisonStatus { poison_id: wordio::word_at(buf, at), poison_script: wordio::word_at(buf, at + 2) }
    }

    pub(crate) fn write(&self, w: &mut WordWriter)
        ensures
            final(w).grew(old(w), 4),
            PoisonStatus::decoded(final(w).buf@, old(w).buf@.len() as int) == *self,
    {
        w.u16(self.poison_id);
        w.u16(self.poison_script);
    }
}

/// An event object is stored as 16 words of two bytes, low byte first: when it
/// is back, where it is and in what layer, its two scripts, its state, how it
/// is triggered, its images, its direction and the counters of its scripts, in
/// this order. The first, the layer and the state are signed.
pub proof fn law_event_object_layout(buf: Seq<u8>, at: int, w: Seq<u16>)
    requires
        w.len() == 16,
        0 <= at,
        at + 32 <= buf.len(),
        forall|k: int| 0 <= k < 16 ==> buf[at + 2 * k] + 0x100 * buf[at + 2 * k + 1] == #[trigger] w[k],
    ensures
        ({
            let o = EventObject::decoded(buf, at);
            &&& o.vanish_time == if w[0] < 0x8000 { w[0] as int } else { w[0] - 0x1_0000 }
            &&& o.x == w[1]
            &&& o.y == w[2]
            &&& o.layer == if w[3] < 0x8000 { w[3] as int } else { w[3] - 0x1_0000 }
            &&& o.trigger_script == w[4]
            &&& o.auto_script == w[5]
            &&& o.state == if w[6] < 0x8000 { w[6] as int } else { w[6] - 0x1_0000 }
            &&& o.trigger_mode == w[7]
            &&& o.sprite_num == w[8]
            &&& o.sprite_frames == w[9]
            &&& o.direction == w[10]
            &&& o.current_frame_num == w[11]
            &&& o.script_idle_frame == w[12]
            &&& o.sprite_ptr_offset == w[13]
            &&& o.sprite_frames_auto == w[14]
            &&& o.script_idle_frame_count_auto == w[15]
        }),
{
    wordio::lemma_spelled_words(buf, at, w);
    crate::casts::lemma_u16_as_i16(w[0]);
    crate::casts::lemma_u16_as_i16(w[3]);
    crate::casts::lemma_u16_as_i16(w[6]);
}

/// A scene is stored as its map, its two scripts and where its event objects
/// start.
pub proof fn law_scene_layout(buf: Seq<u8>, at: int, w: Seq<u16>)
    requires
        w.len() == 4,
        wordio::spells(buf, at, w),
    ensures
        ({
            let o = Scene::decoded(buf, at);
            &&& o.map_num == w[0]
            &&& o.script_on_enter == w[1]
            &&& o.script_on_teleport == w[2]
            &&& o.event_object_index == w[3]
        }),
{
    wordio::lemma_spelled_words(buf, at, w);
}

/// A magic effect is stored as 16 words: how it looks, its speed (signed), how
/// long and strong it is shown, its cost, its damage, its element and its sound
/// (signed).
pub proof fn law_magic_layout(buf: Seq<u8>, at: int, w: Seq<u16>)
    requires
        w.len() == 16,
        wordio::spells(buf, at, w),
    ensures
        ({
            let o = MagicData::decoded(buf, at);
            &&& o.effect == w[0]
            &&& o.magic_type == w[1]
            &&& o.x_offset == w[2]
            &&& o.y_offset == w[3]
            &&& o.specific == w[4]
            &&& o.speed == if w[5] < 0x8000 { w[5] as int } else { w[5] - 0x1_0000 }
            &&& o.keep_effect == w[6]
            &&& o.fire_delay == w[7]
            &&& o.effect_times == w[8]
            &&& o.shake == w[9]
            &&& o.wave == w[10]
            &&& o.unknown == w[11]
            &&& o.cost_mp == w[12]
            &&& o.base_damage == w[13]
            &&& o.elemental == w[14]
            &&& o.sound == if w[15] < 0x8000 { w[15] as int } else { w[15] - 0x1_0000 }
        }),
{
    wordio::lemma_spelled_words(buf, at, w);
    crate::casts::lemma_u16_as_i16(w[5]);
    crate::casts::lemma_u16_as_i16(w[15]);
}

/// An inventory slot is stored as the item, how many there are and how many of
/// them are in use.
pub proof fn law_inventory_layout(buf: Seq<u8>, at: int, w: Seq<u16>)
    requires
        w.len() == 3,
        wordio::spells(buf, at, w),
    ensures
        ({
            let o = Inventory::decoded(buf, at);
            &&& o.item == w[0]
            &&& o.amount == w[1]
            &&& o.amount_in_use == w[2]
        }),
{
    wordio::lemma_spelled_words(buf, at, w);
}

/// A party record is stored as the role, the (signed) place on the screen and
/// the image.
pub proof fn law_party_layout(buf: Seq<u8>, at: int, w: Seq<u16>)
    requires
        w.len() == 5,
        wordio::spells(buf, at, w),
    ensures
        ({
            let o = Party::decoded(buf, at);
            &&& o.player_role == w[0]
            &&& o.x == if w[1] < 0x8000 { w[1] as int } else { w[1] - 0x1_0000 }
            &&& o.y == if w[2] < 0x8000 { w[2] as int } else { w[2] - 0x1_0000 }
            &&& o.frame == w[3]
            &&& o.image_offset == w[4]
        }),
{
    wordio::lemma_spelled_words(buf, at, w);
    crate::casts::lemma_u16_as_i16(w[1]);
    crate::casts::lemma_u16_as_i16(w[2]);
}

/// A trail record is stored as where the party was and where it went.
pub proof fn law_trail_layout(buf: Seq<u8>, at: int, w: Seq<u16>)
    requires
        w.len() == 3,
        wordio::spells(buf, at, w),
    ensures
        ({
            let o = Trail::decoded(buf, at);
            &&& o.x == w[0]
            &&& o.y == w[1]
            &&& o.direction == w[2]
        }),
{
    wordio::lemma_spelled_words(buf, at, w);
}

/// Experience is stored as the points, an unused word, the level and how often
/// it was gained.
pub proof fn law_experience_layout(buf: Seq<u8>, at: int, w: Seq<u16>)
    requires
        w.len() == 4,
        wordio::spells(buf, at, w),
    ensures
        ({
            let o = Experience::decoded(buf, at);
            &&& o.exp == w[0]
            &&& o.reserved == w[1]
            &&& o.level == w[2]
            &&& o.count == w[3]
        }),
{
    wordio::lemma_spelled_words(buf, at, w);
}

/// A poison is stored as the poison and its script.
pub proof fn law_poison_layout(buf: Seq<u8>, at: int, w: Seq<u16>)
    requires
        w.len() == 2,
        wordio::spells(buf, at, w),
    ensures
        ({
            let o = PoisonStatus::decoded(buf, at);
            &&& o.poison_id == w[0]
            &&& o.poison_script == w[1]
        }),
{
    wordio::lemma_spelled_words(buf, at, w);
}

/// An object is stored as its first five words and the last one, its flags.
pub proof fn law_object_layout(o: GameObject, buf: Seq<u8>, at: int, w: Seq<u16>)
    requires
        w.len() == 6,
        wordio::spells(buf, at, w),
        o.held_at(buf, at),
    ensures
        o.data@[0] == w[0],
        o.data@[1] == w[1],
        o.data@[2] == w[2],
        o.data@[3] == w[3],
        o.data@[4] == w[4],
        o.data@[6] == w[5],
{
    wordio::lemma_spelled_words(buf, at, w);
    assert(o.stored() == w);
    assert(o.stored()[0] == o.data@[0] && o.stored()[1] == o.data@[1] && o.stored()[2] == o.data@[2]);
    assert(o.stored()[3] == o.data@[3] && o.stored()[4] == o.data@[4] && o.stored()[5] == o.data@[6]);
}

/// A script instruction is stored as what it does and three operands.
pub proof fn law_script_layout(o: ScriptEntry, buf: Seq<u8>, at: int, w: Seq<u16>)
    requires
        w.len() == 4,
        wordio::spells(buf, at, w),
        o.held_at(buf, at),
    ensures
        o.operation == w[0],
        o.operand@[0] == w[1],
        o.operand@[1] == w[2],
        o.operand@[2] == w[3],
{
    wordio::lemma_spelled_words(buf, at, w);
    assert(o.operand@[0] == wordio::word_at(buf, at + 2 + 2 * 0));
    assert(o.operand@[1] == wordio::word_at(buf, at + 2 + 2 * 1));
    assert(o.operand@[2] == wordio::word_at(buf, at + 2 + 2 * 2));
}

/// A store is stored as the nine items that it sells.
pub proof fn law_store_layout(o: Store, buf: Seq<u8>, at: int, w: Seq<u16>)
    requires
        w.len() == 9,
        wordio::spells(buf, at, w),
        o.held_at(buf, at),
    ensures
        o.items@[0] == w[0],
        o.items@[1] == w[1],
        o.items@[2] == w[2],
        o.items@[3] == w[3],
        o.items@[4] == w[4],
        o.items@[5] == w[5],
        o.items@[6] == w[6],
        o.items@[7] == w[7],
        o.items@[8] == w[8],
{
    wordio::lemma_spelled_words(buf, at, w);
}

/// A team is stored as its five enemies.
pub proof fn law_team_layout(o: EnemyTeam, buf: Seq<u8>, at: int, w: Seq<u16>)
    requires
        w.len() == 5,
        wordio::spells(buf, at, w),
        o.held_at(buf, at),
    ensures
        o.enemy@[0] == w[0],
        o.enemy@[1] == w[1],
        o.enemy@[2] == w[2],
        o.enemy@[3] == w[3],
        o.enemy@[4] == w[4],
{
    wordio::lemma_spelled_words(buf, at, w);
}

/// An enemy is stored as 35 words: its images, its (signed) sounds, its health
/// and what it leaves, how it fights, what can be stolen from it, its strengths,
/// and its resistances, in this order.
pub proof fn law_enemy_layout(o: Enemy, buf: Seq<u8>, at: int, w: Seq<u16>)
    requires
        w.len() == 35,
        wordio::spells(buf, at, w),
        o.held_at(buf, at),
    ensures
        o.idle_frames == w[0],
        o.magic_frames == w[1],
        o.attack_frames == w[2],
        o.idle_anim_speed == w[3],
        o.act_wait_frames == w[4],
        o.y_pos_offset == w[5],
        o.attack_sound == if w[6] < 0x8000 { w[6] as int } else { w[6] - 0x1_0000 },
        o.action_sound == if w[7] < 0x8000 { w[7] as int } else { w[7] - 0x1_0000 },
        o.magic_sound == if w[8] < 0x8000 { w[8] as int } else { w[8] - 0x1_0000 },
        o.death_sound == if w[9] < 0x8000 { w[9] as int } else { w[9] - 0x1_0000 },
        o.call_sound == if w[10] < 0x8000 { w[10] as int } else { w[10] - 0x1_0000 },
        o.health == w[11],
        o.exp == w[12],
        o.cash == w[13],
        o.level == w[14],
        o.magic == w[15],
        o.magic_rate == w[16],
        o.attack_equiv_item == w[17],
        o.attack_equiv_item_rate == w[18],
        o.steal_item == w[19],
        o.steal_item_count == w[20],
        o.attack_strength == w[21],
        o.magic_strength == w[22],
        o.defense == w[23],
        o.dexterity == w[24],
        o.flee_rate == w[25],
        o.poison_resistance == w[26],
        o.elem_resistance@[0] == w[27],
        o.elem_resistance@[1] == w[28],
        o.elem_resistance@[2] == w[29],
        o.elem_resistance@[3] == w[30],
        o.elem_resistance@[4] == w[31],
        o.physical_resistance == w[32],
        o.dual_move == w[33],
        o.collect_value == w[34],
{
    wordio::lemma_spelled_words(buf, at, w);
    crate::casts::lemma_u16_as_i16(w[6]);
    crate::casts::lemma_u16_as_i16(w[7]);
    crate::casts::lemma_u16_as_i16(w[8]);
    crate::casts::lemma_u16_as_i16(w[9]);
    crate::casts::lemma_u16_as_i16(w[10]);
    assert(o.elem_resistance@ =~= wordio::words(buf, at + 54, 5));
    assert(o.elem_resistance@[0] == wordio::word_at(buf, at + 54 + 2 * 0) && w[27] == w[27]);
    assert(o.elem_resistance@[1] == wordio::word_at(buf, at + 54 + 2 * 1) && w[28] == w[28]);
    assert(o.elem_resistance@[2] == wordio::word_at(buf, at + 54 + 2 * 2) && w[29] == w[29]);
    assert(o.elem_resistance@[3] == wordio::word_at(buf, at + 54 + 2 * 3) && w[30] == w[30]);
    assert(o.elem_resistance@[4] == wordio::word_at(buf, at + 54 + 2 * 4) && w[31] == w[31]);
}

/// A battle field is stored as its wave effect and its (signed) effects on the
/// five elements.
pub proof fn law_battle_field_layout(o: BattleField, buf: Seq<u8>, at: int, w: Seq<u16>)
    requires
        w.len() == 6,
        wordio::spells(buf, at, w),
        o.held_at(buf, at),
    ensures
        o.screen_wave == w[0],
        o.magic_effect@[0] == if w[1] < 0x8000 { w[1] as int } else { w[1] - 0x1_0000 },
        o.magic_effect@[1] == if w[2] < 0x8000 { w[2] as int } else { w[2] - 0x1_0000 },
        o.magic_effect@[2] == if w[3] < 0x8000 { w[3] as int } else { w[3] - 0x1_0000 },
        o.magic_effect@[3] == if w[4] < 0x8000 { w[4] as int } else { w[4] - 0x1_0000 },
        o.magic_effect@[4] == if w[5] < 0x8000 { w[5] as int } else { w[5] - 0x1_0000 },
{
    wordio::lemma_spelled_words(buf, at, w);
    crate::casts::lemma_u16_as_i16(w[1]);
    crate::casts::lemma_u16_as_i16(w[2]);
    crate::casts::lemma_u16_as_i16(w[3]);
    crate::casts::lemma_u16_as_i16(w[4]);
    crate::casts::lemma_u16_as_i16(w[5]);
    assert(o.magic_effect@[0] == wordio::word_at(buf, at + 2 + 2 * 0) as i16);
    assert(o.magic_effect@[1] == wordio::word_at(buf, at + 2 + 2 * 1) as i16);
    assert(o.magic_effect@[2] == wordio::word_at(buf, at + 2 + 2 * 2) as i16);
    assert(o.magic_effect@[3] == wordio::word_at(buf, at + 2 + 2 * 3) as i16);
    assert(o.magic_effect@[4] == wordio::word_at(buf, at + 2 + 2 * 4) as i16);
}

/// The magic learned at levels is stored as the level and the magic, for each of
/// five roles.
pub proof fn law_level_up_magic_layout(o: LevelUpMagicAll, buf: Seq<u8>, at: int, w: Seq<u16>)
    requires
        w.len() == 10,
        wordio::spells(buf, at, w),
        o.held_at(buf, at),
    ensures
        o.m@[0].0 == w[0],
        o.m@[0].1 == w[1],
        o.m@[1].0 == w[2],
        o.m@[1].1 == w[3],
        o.m@[2].0 == w[4],
        o.m@[2].1 == w[5],
        o.m@[3].0 == w[6],
        o.m@[3].1 == w[7],
        o.m@[4].0 == w[8],
        o.m@[4].1 == w[9],
{
    wordio::lemma_spelled_words(buf, at, w);
    assert(o.m@[0] == (wordio::word_at(buf, at + 4 * 0), wordio::word_at(buf, at + 4 * 0 + 2)));
    assert(o.m@[1] == (wordio::word_at(buf, at + 4 * 1), wordio::word_at(buf, at + 4 * 1 + 2)));
    assert(o.m@[2] == (wordio::word_at(buf, at + 4 * 2), wordio::word_at(buf, at + 4 * 2 + 2)));
    assert(o.m@[3] == (wordio::word_at(buf, at + 4 * 3), wordio::word_at(buf, at + 4 * 3 + 2)));
    assert(o.m@[4] == (wordio::word_at(buf, at + 4 * 4), wordio::word_at(buf, at + 4 * 4 + 2)));
}

} // verus!
