//! The game's data tables and how they are loaded from the archives.

use vstd::prelude::*;

use crate::data::{DataError, GameFiles};
use crate::records::{
    BattleField, Enemy, EnemyTeam, EventObject, GameObject, LevelUpMagicAll, MagicData, Scene, ScriptEntry, Store,
    MAX_OBJECTS, MAX_SCENES,
};
use crate::roles::PlayerRoles;
use crate::wordio;
use crate::wordio::WordReader;

verus! {

/// The tables loaded from the data files.
pub struct GameData {
    pub event_objects: Vec<EventObject>,
    /// `MAX_SCENES` entries.
    pub scenes: Vec<Scene>,
    /// `MAX_OBJECTS` entries.
    pub objects: Vec<GameObject>,
    pub script_entries: Vec<ScriptEntry>,
    pub stores: Vec<Store>,
    pub enemies: Vec<Enemy>,
    pub enemy_teams: Vec<EnemyTeam>,
    pub player_roles: PlayerRoles,
    pub magics: Vec<MagicData>,
    pub battle_fields: Vec<BattleField>,
    pub level_up_magics: Vec<LevelUpMagicAll>,
    pub enemy_pos: [[(u16, u16); 5]; 5],
    pub level_up_exp: [u16; 100],
    pub battle_effect_index: [[u16; 2]; 10],
}

/// The table holds the event objects stored from byte offset `at` on.
pub open spec fn event_objects_at(table: Seq<EventObject>, buf: Seq<u8>, at: int) -> bool {
    forall|i: int| 0 <= i < table.len() ==> #[trigger] table[i] == EventObject::decoded(buf, at + 32 * i)
}

/// The table holds the scenes stored from byte offset `at` on.
pub open spec fn scenes_at(table: Seq<Scene>, buf: Seq<u8>, at: int) -> bool {
    forall|i: int| 0 <= i < table.len() ==> #[trigger] table[i] == Scene::decoded(buf, at + 8 * i)
}

/// The stored words of each object are those from byte offset `at` on.
pub open spec fn objects_at(table: Seq<GameObject>, buf: Seq<u8>, at: int) -> bool {
    forall|i: int| 0 <= i < table.len() ==> (#[trigger] table[i]).held_at(buf, at + 12 * i)
}

/// No object has anything in the word that is not stored.
pub open spec fn objects_fresh(table: Seq<GameObject>) -> bool {
    forall|i: int| 0 <= i < table.len() ==> (#[trigger] table[i]).data@[5] == 0
}

/// The table holds the entries stored in `buf`.
pub open spec fn script_entries_in(table: Seq<ScriptEntry>, buf: Seq<u8>) -> bool {
    forall|i: int| 0 <= i < table.len() ==> (#[trigger] table[i]).held_at(buf, 8 * i)
}

/// The table holds the entries stored in `buf`.
pub open spec fn stores_in(table: Seq<Store>, buf: Seq<u8>) -> bool {
    forall|i: int| 0 <= i < table.len() ==> (#[trigger] table[i]).held_at(buf, 18 * i)
}

/// The table holds the entries stored in `buf`.
pub open spec fn enemies_in(table: Seq<Enemy>, buf: Seq<u8>) -> bool {
    forall|i: int| 0 <= i < table.len() ==> (#[trigger] table[i]).held_at(buf, 70 * i)
}

/// The table holds the entries stored in `buf`.
pub open spec fn enemy_teams_in(table: Seq<EnemyTeam>, buf: Seq<u8>) -> bool {
    forall|i: int| 0 <= i < table.len() ==> (#[trigger] table[i]).held_at(buf, 10 * i)
}

/// The table holds the entries stored in `buf`.
pub open spec fn magics_in(table: Seq<MagicData>, buf: Seq<u8>) -> bool {
    forall|i: int| 0 <= i < table.len() ==> #[trigger] table[i] == MagicData::decoded(buf, 32 * i)
}

/// The table holds the entries stored in `buf`.
pub open spec fn battle_fields_in(table: Seq<BattleField>, buf: Seq<u8>) -> bool {
    forall|i: int| 0 <= i < table.len() ==> (#[trigger] table[i]).held_at(buf, 12 * i)
}

/// The table holds the entries stored in `buf`.
pub open spec fn level_up_magics_in(table: Seq<LevelUpMagicAll>, buf: Seq<u8>) -> bool {
    forall|i: int| 0 <= i < table.len() ==> (#[trigger] table[i]).held_at(buf, 20 * i)
}

/// The table holds the pairs of words stored in `buf`, row by row.
pub open spec fn enemy_pos_in(table: Seq<[(u16, u16); 5]>, buf: Seq<u8>) -> bool {
    forall|i: int, j: int|
        0 <= i < 5 && 0 <= j < 5 ==> #[trigger] table[i]@[j] == (
            wordio::word_at(buf, 20 * i + 4 * j),
            wordio::word_at(buf, 20 * i + 4 * j + 2),
        )
}

/// The table holds the pairs of words stored in `buf`.
pub open spec fn battle_effect_in(table: Seq<[u16; 2]>, buf: Seq<u8>) -> bool {
    forall|i: int| 0 <= i < 10 ==> (#[trigger] table[i])@ == wordio::words(buf, 4 * i, 2)
}

impl GameFiles {
    /// The chunks of the fixed tables, in the order in which they are read:
    /// true for one of `sss`, false for one of `data`, and the chunk number.
    pub open spec fn fixed_chunks() -> Seq<(bool, usize)> {
        seq![
            (true, 4usize), (false, 0usize), (false, 1usize), (false, 2usize), (false, 4usize),
            (false, 5usize), (false, 6usize), (false, 11usize), (false, 13usize), (false, 14usize),
        ]
    }

    /// The chunks that a new game starts from, in the order in which they are
    /// read.
    pub open spec fn default_chunks() -> Seq<(bool, usize)> {
        seq![(true, 0usize), (true, 1usize), (true, 2usize), (false, 3usize)]
    }

    /// The chunk is there.
    pub open spec fn has_chunk(&self, c: (bool, usize)) -> bool {
        if c.0 {
            self.sss.has(c.1 as int)
        } else {
            self.data.has(c.1 as int)
        }
    }

    /// The first `n` of these chunks are there.
    pub open spec fn has_first(&self, chunks: Seq<(bool, usize)>, n: int) -> bool {
        forall|i: int| 0 <= i < n ==> self.has_chunk(#[trigger] chunks[i])
    }

    /// `e` reports the first of these chunks that is missing.
    pub open spec fn first_missing(&self, chunks: Seq<(bool, usize)>, e: DataError) -> bool {
        exists|n: int|
            0 <= n < chunks.len() && self.has_first(chunks, n) && !self.has_chunk(#[trigger] chunks[n]) && e
                == DataError::ChunkMissing(chunks[n].1)
    }
}

impl GameData {
    /// The tables that are part of a saved game can be addressed as one
    /// buffer.
    pub open spec fn addressable(&self) -> bool {
        12864 + 8 * self.scenes@.len() + 12 * self.objects@.len() + 32 * self.event_objects@.len() <= usize::MAX
    }

    /// The fixed tables hold what the archives hold.
    pub open spec fn fixed_tables_from(&self, files: &GameFiles) -> bool {
        &&& script_entries_in(self.script_entries@, files.sss.bytes(4))
        &&& stores_in(self.stores@, files.data.bytes(0))
        &&& enemies_in(self.enemies@, files.data.bytes(1))
        &&& enemy_teams_in(self.enemy_teams@, files.data.bytes(2))
        &&& magics_in(self.magics@, files.data.bytes(4))
        &&& battle_fields_in(self.battle_fields@, files.data.bytes(5))
        &&& level_up_magics_in(self.level_up_magics@, files.data.bytes(6))
        &&& battle_effect_in(self.battle_effect_index@, files.data.bytes(11))
        &&& enemy_pos_in(self.enemy_pos@, files.data.bytes(13))
        &&& self.level_up_exp@ == wordio::words(files.data.bytes(14), 0, 100)
    }

    /// The tables that a game changes hold what a new game starts with.
    pub open spec fn starts_from(&self, files: &GameFiles) -> bool {
        &&& event_objects_at(self.event_objects@, files.sss.bytes(0), 0)
        &&& scenes_at(self.scenes@, files.sss.bytes(1), 0)
        &&& objects_at(self.objects@, files.sss.bytes(2), 0)
        &&& objects_fresh(self.objects@)
        &&& self.player_roles.held_at(files.data.bytes(3), 0)
    }

    /// Table sizes follow from chunk sizes.
    pub open spec fn sized_by(&self, files: &GameFiles) -> bool {
        &&& self.event_objects@.len() == files.sss.size(0) / 32
        &&& self.scenes@.len() == 300
        &&& self.objects@.len() == 600
        &&& self.script_entries@.len() == files.sss.size(4) / 8
        &&& self.stores@.len() == files.data.size(0) / 18
        &&& self.enemies@.len() == files.data.size(1) / 70
        &&& self.enemy_teams@.len() == files.data.size(2) / 10
        &&& self.magics@.len() == files.data.size(4) / 32
        &&& self.battle_fields@.len() == files.data.size(5) / 12
        &&& self.level_up_magics@.len() == files.data.size(6) / 20
    }

    fn load_script_entries(bytes: &[u8]) -> (table: Vec<ScriptEntry>)
        ensures
            table@.len() == bytes@.len() / 8,
            script_entries_in(table@, bytes@),
    {
        let n: usize = bytes.len() / 8;
        let mut r: WordReader = WordReader::new(bytes);
        let mut table: Vec<ScriptEntry> = Vec::new();
        for i in 0..n
            invariant
                n == bytes@.len() / 8,
                bytes@.len() <= usize::MAX,
                r.bytes() == bytes@,
                r.offset() == 8 * i,
                table@.len() == i,
                forall|k: int| 0 <= k < i ==> (#[trigger] table@[k]).held_at(bytes@, 8 * k),
        {
            table.push(ScriptEntry::read(&mut r));
        }
        table
    }

    fn load_stores(bytes: &[u8]) -> (table: Vec<Store>)
        ensures
            table@.len() == bytes@.len() / 18,
            stores_in(table@, bytes@),
    {
        let n: usize = bytes.len() / 18;
        let mut r: WordReader = WordReader::new(bytes);
        let mut table: Vec<Store> = Vec::new();
        for i in 0..n
            invariant
                n == bytes@.len() / 18,
                bytes@.len() <= usize::MAX,
                r.bytes() == bytes@,
                r.offset() == 18 * i,
                table@.len() == i,
                forall|k: int| 0 <= k < i ==> (#[trigger] table@[k]).held_at(bytes@, 18 * k),
        {
            table.push(Store::read(&mut r));
        }
        table
    }

    fn load_enemies(bytes: &[u8]) -> (table: Vec<Enemy>)
        ensures
            table@.len() == bytes@.len() / 70,
            enemies_in(table@, bytes@),
    {
        let n: usize = bytes.len() / 70;
        let mut r: WordReader = WordReader::new(bytes);
        let mut table: Vec<Enemy> = Vec::new();
        for i in 0..n
            invariant
                n == bytes@.len() / 70,
                bytes@.len() <= usize::MAX,
                r.bytes() == bytes@,
                r.offset() == 70 * i,
                table@.len() == i,
                forall|k: int| 0 <= k < i ==> (#[trigger] table@[k]).held_at(bytes@, 70 * k),
        {
            table.push(Enemy::read(&mut r));
        }
        table
    }

    fn load_enemy_teams(bytes: &[u8]) -> (table: Vec<EnemyTeam>)
        ensures
            table@.len() == bytes@.len() / 10,
            enemy_teams_in(table@, bytes@),
    {
        let n: usize = bytes.len() / 10;
        let mut r: WordReader = WordReader::new(bytes);
        let mut table: Vec<EnemyTeam> = Vec::new();
        for i in 0..n
            invariant
                n == bytes@.len() / 10,
                bytes@.len() <= usize::MAX,
                r.bytes() == bytes@,
                r.offset() == 10 * i,
                table@.len() == i,
                forall|k: int| 0 <= k < i ==> (#[trigger] table@[k]).held_at(bytes@, 10 * k),
        {
            table.push(EnemyTeam::read(&mut r));
        }
        table
    }

    fn load_magics(bytes: &[u8]) -> (table: Vec<MagicData>)
        ensures
            table@.len() == bytes@.len() / 32,
            magics_in(table@, bytes@),
    {
        let n: usize = bytes.len() / 32;
        let mut r: WordReader = WordReader::new(bytes);
        let mut table: Vec<MagicData> = Vec::new();
        for i in 0..n
            invariant
                n == bytes@.len() / 32,
                bytes@.len() <= usize::MAX,
                r.bytes() == bytes@,
                r.offset() == 32 * i,
                table@.len() == i,
                forall|k: int| 0 <= k < i ==> #[trigger] table@[k] == MagicData::decoded(bytes@, 32 * k),
        {
            table.push(MagicData::read(&mut r));
        }
        table
    }

    fn load_battle_fields(bytes: &[u8]) -> (table: Vec<BattleField>)
        ensures
            table@.len() == bytes@.len() / 12,
            battle_fields_in(table@, bytes@),
    {
        let n: usize = bytes.len() / 12;
        let mut r: WordReader = WordReader::new(bytes);
        let mut table: Vec<BattleField> = Vec::new();
        for i in 0..n
            invariant
                n == bytes@.len() / 12,
                bytes@.len() <= usize::MAX,
                r.bytes() == bytes@,
                r.offset() == 12 * i,
                table@.len() == i,
                forall|k: int| 0 <= k < i ==> (#[trigger] table@[k]).held_at(bytes@, 12 * k),
        {
            table.push(BattleField::read(&mut r));
        }
        table
    }

    fn load_level_up_magics(bytes: &[u8]) -> (table: Vec<LevelUpMagicAll>)
        ensures
            table@.len() == bytes@.len() / 20,
            level_up_magics_in(table@, bytes@),
    {
        let n: usize = bytes.len() / 20;
        let mut r: WordReader = WordReader::new(bytes);
        let mut table: Vec<LevelUpMagicAll> = Vec::new();
        for i in 0..n
            invariant
                n == bytes@.len() / 20,
                bytes@.len() <= usize::MAX,
                r.bytes() == bytes@,
                r.offset() == 20 * i,
                table@.len() == i,
                forall|k: int| 0 <= k < i ==> (#[trigger] table@[k]).held_at(bytes@, 20 * k),
        {
            table.push(LevelUpMagicAll::read(&mut r));
        }
        table
    }

    fn load_battle_effect_index(bytes: &[u8]) -> (table: [[u16; 2]; 10])
        ensures
            battle_effect_in(table@, bytes@),
    {
        let mut r: WordReader = WordReader::new(bytes);
        let mut table: [[u16; 2]; 10] = [[0u16; 2]; 10];
        for i in 0..10usize
            invariant
                r.bytes() == bytes@,
                r.offset() == 4 * i,
                forall|k: int| 0 <= k < i ==> (#[trigger] table@[k])@ == wordio::words(bytes@, 4 * k, 2),
        {
            let row: [u16; 2] = [r.u16(), r.u16()];
            assert(row@ =~= wordio::words(bytes@, 4 * i, 2));
            table[i] = row;
        }
        table
    }

    fn load_enemy_pos(bytes: &[u8]) -> (table: [[(u16, u16); 5]; 5])
        ensures
            enemy_pos_in(table@, bytes@),
    {
        let mut r: WordReader = WordReader::new(bytes);
        let mut table: [[(u16, u16); 5]; 5] = [[(0u16, 0u16); 5]; 5];
        for i in 0..5usize
            invariant
                r.bytes() == bytes@,
                r.offset() == 20 * i,
                forall|a: int, b: int|
                    0 <= a < i && 0 <= b < 5 ==> #[trigger] table@[a]@[b] == (
                        wordio::word_at(bytes@, 20 * a + 4 * b),
                        wordio::word_at(bytes@, 20 * a + 4 * b + 2),
                    ),
        {
            table[i] = [
                (r.u16(), r.u16()),
                (r.u16(), r.u16()),
                (r.u16(), r.u16()),
                (r.u16(), r.u16()),
                (r.u16(), r.u16()),
            ];
        }
        table
    }

    fn load_level_up_exp(bytes: &[u8]) -> (table: [u16; 100])
        ensures
            table@ == wordio::words(bytes@, 0, 100),
    {
        let mut r: WordReader = WordReader::new(bytes);
        let mut table: [u16; 100] = [0u16; 100];
        for i in 0..100usize
            invariant
                r.bytes() == bytes@,
                r.offset() == 2 * i,
                forall|k: int| 0 <= k < i ==> #[trigger] table@[k] == wordio::word_at(bytes@, 2 * k),
        {
            table[i] = r.u16();
        }
        assert(table@ =~= wordio::words(bytes@, 0, 100));
        table
    }

    /// Load every table. Sizes follow from chunk sizes; a missing chunk is an
    /// error.
    pub fn load(files: &GameFiles) -> (r: Result<GameData, DataError>)
        ensures
            r is Ok <==> files.has_first(GameFiles::fixed_chunks(), 10) && files.has_first(GameFiles::default_chunks(), 4),
            r matches Ok(g) ==> g.sized_by(files) && g.fixed_tables_from(files) && g.starts_from(files),
            r matches Err(e) ==> if files.has_first(GameFiles::fixed_chunks(), 10) {
                files.first_missing(GameFiles::default_chunks(), e)
            } else {
                files.first_missing(GameFiles::fixed_chunks(), e)
            },
    {
        let mut g: GameData = GameData::read_global_game_data(files)?;
        match g.reload_default(files) {
            Ok(()) => Ok(g),
            Err(e) => Err(e),
        }
    }

    /// The fixed tables, with the tables that a game changes sized but empty.
    fn read_global_game_data(files: &GameFiles) -> (r: Result<GameData, DataError>)
        ensures
            r is Ok <==> files.has_first(GameFiles::fixed_chunks(), 10),
            r matches Ok(g) ==> g.sized_by(files) && g.fixed_tables_from(files),
            r matches Err(e) ==> files.first_missing(GameFiles::fixed_chunks(), e),
    {
        let ghost order = GameFiles::fixed_chunks();
        let script_entries_bytes: &[u8] = match files.sss.chunk(4) {
            Ok(bytes) => bytes,
            Err(e) => {
                assert(!files.has_chunk(order[0]));
                return Err(e);
            },
        };
        assert(files.has_chunk(order[0]));
        let stores_bytes: &[u8] = match files.data.chunk(0) {
            Ok(bytes) => bytes,
            Err(e) => {
                assert(!files.has_chunk(order[1]));
                return Err(e);
            },
        };
        assert(files.has_chunk(order[1]));
        let enemies_bytes: &[u8] = match files.data.chunk(1) {
            Ok(bytes) => bytes,
            Err(e) => {
                assert(!files.has_chunk(order[2]));
                return Err(e);
            },
        };
        assert(files.has_chunk(order[2]));
        let enemy_teams_bytes: &[u8] = match files.data.chunk(2) {
            Ok(bytes) => bytes,
            Err(e) => {
                assert(!files.has_chunk(order[3]));
                return Err(e);
            },
        };
        assert(files.has_chunk(order[3]));
        let magics_bytes: &[u8] = match files.data.chunk(4) {
            Ok(bytes) => bytes,
            Err(e) => {
                assert(!files.has_chunk(order[4]));
                return Err(e);
            },
        };
        assert(files.has_chunk(order[4]));
        let battle_fields_bytes: &[u8] = match files.data.chunk(5) {
            Ok(bytes) => bytes,
            Err(e) => {
                assert(!files.has_chunk(order[5]));
                return Err(e);
            },
        };
        assert(files.has_chunk(order[5]));
        let level_up_magics_bytes: &[u8] = match files.data.chunk(6) {
            Ok(bytes) => bytes,
            Err(e) => {
                assert(!files.has_chunk(order[6]));
                return Err(e);
            },
        };
        assert(files.has_chunk(order[6]));
        let battle_effect_index_bytes: &[u8] = match files.data.chunk(11) {
            Ok(bytes) => bytes,
            Err(e) => {
                assert(!files.has_chunk(order[7]));
                return Err(e);
            },
        };
        assert(files.has_chunk(order[7]));
        let enemy_pos_bytes: &[u8] = match files.data.chunk(13) {
            Ok(bytes) => bytes,
            Err(e) => {
                assert(!files.has_chunk(order[8]));
                return Err(e);
            },
        };
        assert(files.has_chunk(order[8]));
        let level_up_exp_bytes: &[u8] = match files.data.chunk(14) {
            Ok(bytes) => bytes,
            Err(e) => {
                assert(!files.has_chunk(order[9]));
                return Err(e);
            },
        };
        assert(files.has_chunk(order[9]));
        let zero_event: EventObject = EventObject::default();
        let zero_scene: Scene = Scene::default();
        let zero_object: GameObject = GameObject::default();
        Ok(GameData {
            event_objects: vec![zero_event; files.sss.chunk_size(0) / 32],
            scenes: vec![zero_scene; MAX_SCENES],
            objects: vec![zero_object; MAX_OBJECTS],
            player_roles: PlayerRoles::default(),
            script_entries: GameData::load_script_entries(script_entries_bytes),
            stores: GameData::load_stores(stores_bytes),
            enemies: GameData::load_enemies(enemies_bytes),
            enemy_teams: GameData::load_enemy_teams(enemy_teams_bytes),
            magics: GameData::load_magics(magics_bytes),
            battle_fields: GameData::load_battle_fields(battle_fields_bytes),
            level_up_magics: GameData::load_level_up_magics(level_up_magics_bytes),
            battle_effect_index: GameData::load_battle_effect_index(battle_effect_index_bytes),
            enemy_pos: GameData::load_enemy_pos(enemy_pos_bytes),
            level_up_exp: GameData::load_level_up_exp(level_up_exp_bytes),
        })
    }

    /// `self` is `before` with the tables that a game changes reloaded, up to
    /// the first chunk that is missing.
    pub open spec fn reloaded_from(&self, before: &GameData, files: &GameFiles) -> bool {
        let order = GameFiles::default_chunks();
        &&& *self == (GameData {
            event_objects: self.event_objects,
            scenes: self.scenes,
            objects: self.objects,
            player_roles: self.player_roles,
            ..*before
        })
        &&& if files.sss.has(0) {
            event_objects_at(self.event_objects@, files.sss.bytes(0), 0)
        } else {
            self.event_objects == before.event_objects
        }
        &&& if files.has_first(order, 2) {
            scenes_at(self.scenes@, files.sss.bytes(1), 0)
        } else {
            self.scenes == before.scenes
        }
        &&& if files.has_first(order, 3) {
            objects_at(self.objects@, files.sss.bytes(2), 0) && objects_fresh(self.objects@)
        } else {
            self.objects == before.objects
        }
        &&& !files.has_first(order, 4) ==> self.player_roles == before.player_roles
    }

    /// Reload the tables that a game changes: event objects, scenes, objects
    /// and role statistics. Tables read before a missing chunk is met stay
    /// reloaded.
    pub fn reload_default(&mut self, files: &GameFiles) -> (r: Result<(), DataError>)
        requires
            old(self).addressable() || old(self).sized_by(files),
        ensures
            r is Ok <==> files.has_first(GameFiles::default_chunks(), 4),
            r matches Err(e) ==> files.first_missing(GameFiles::default_chunks(), e),
            r is Ok ==> final(self).starts_from(files),
            final(self).event_objects@.len() == old(self).event_objects@.len(),
            final(self).scenes@.len() == old(self).scenes@.len(),
            final(self).objects@.len() == old(self).objects@.len(),
            final(self).reloaded_from(old(self), files),
    {
        let ghost order = GameFiles::default_chunks();
        let event_bytes: &[u8] = match files.sss.chunk(0) {
            Ok(bytes) => bytes,
            Err(e) => {
                assert(!files.has_chunk(order[0]));
                return Err(e);
            },
        };
        assert(files.has_chunk(order[0]));
        let n_events: usize = self.event_objects.len();
        assert(32 * n_events <= usize::MAX) by {
            let size: usize = event_bytes.len();
            assert(event_bytes@.len() <= usize::MAX);
        }
        let mut r: WordReader = WordReader::new(event_bytes);
        for i in 0..n_events
            invariant
                32 * n_events <= usize::MAX,
                r.bytes() == event_bytes@,
                r.offset() == 32 * i,
                self.event_objects@.len() == n_events,
                forall|k: int| 0 <= k < i ==> #[trigger] self.event_objects@[k] == EventObject::decoded(event_bytes@, 32 * k),
                *self == (GameData { event_objects: self.event_objects, ..*old(self) }),
        {
            self.event_objects[i] = EventObject::read(&mut r);
        }
        let scene_bytes: &[u8] = match files.sss.chunk(1) {
            Ok(bytes) => bytes,
            Err(e) => {
                assert(!files.has_chunk(order[1]));
                return Err(e);
            },
        };
        assert(files.has_chunk(order[1]));
        let ghost after_events = *self;
        let n_scenes: usize = self.scenes.len();
        let mut r: WordReader = WordReader::new(scene_bytes);
        for i in 0..n_scenes
            invariant
                8 * n_scenes <= usize::MAX,
                r.bytes() == scene_bytes@,
                r.offset() == 8 * i,
                self.scenes@.len() == n_scenes,
                forall|k: int| 0 <= k < i ==> #[trigger] self.scenes@[k] == Scene::decoded(scene_bytes@, 8 * k),
                *self == (GameData { scenes: self.scenes, ..after_events }),
        {
            self.scenes[i] = Scene::read(&mut r);
        }
        let object_bytes: &[u8] = match files.sss.chunk(2) {
            Ok(bytes) => bytes,
            Err(e) => {
                assert(!files.has_chunk(order[2]));
                return Err(e);
            },
        };
        assert(files.has_chunk(order[2]));
        let ghost after_scenes = *self;
        let n_objects: usize = self.objects.len();
        let mut r: WordReader = WordReader::new(object_bytes);
        for i in 0..n_objects
            invariant
                12 * n_objects <= usize::MAX,
                r.bytes() == object_bytes@,
                r.offset() == 12 * i,
                self.objects@.len() == n_objects,
                forall|k: int| 0 <= k < i ==> (#[trigger] self.objects@[k]).held_at(object_bytes@, 12 * k),
                forall|k: int| 0 <= k < i ==> (#[trigger] self.objects@[k]).data@[5] == 0,
                *self == (GameData { objects: self.objects, ..after_scenes }),
        {
            self.objects[i] = GameObject::read(&mut r);
        }
        let role_bytes: &[u8] = match files.data.chunk(3) {
            Ok(bytes) => bytes,
            Err(e) => {
                assert(!files.has_chunk(order[3]));
                return Err(e);
            },
        };
        assert(files.has_chunk(order[3]));
        let mut r: WordReader = WordReader::new(role_bytes);
        self.player_roles = PlayerRoles::read(&mut r);
        Ok(())
    }
}

/// Which chunk holds which table, and how long its records are.
pub proof fn law_tables_lie_in_their_chunks(g: GameData, files: GameFiles, i: int, j: int)
    requires
        g.fixed_tables_from(&files),
        g.sized_by(&files),
        0 <= i,
        0 <= j,
    ensures
        i < files.sss.size(4) / 8 ==> g.script_entries@[i].operation == wordio::word_at(files.sss.bytes(4), 8 * i),
        i < files.sss.size(4) / 8 && j < 3 ==> g.script_entries@[i].operand@[j] == wordio::word_at(
            files.sss.bytes(4),
            8 * i + 2 + 2 * j,
        ),
        i < files.data.size(0) / 18 && j < 9 ==> g.stores@[i].items@[j] == wordio::word_at(files.data.bytes(0), 18 * i + 2 * j),
        i < files.data.size(1) / 70 ==> g.enemies@[i].held_at(files.data.bytes(1), 70 * i),
        i < files.data.size(2) / 10 && j < 5 ==> g.enemy_teams@[i].enemy@[j] == wordio::word_at(
            files.data.bytes(2),
            10 * i + 2 * j,
        ),
        i < files.data.size(4) / 32 ==> g.magics@[i] == MagicData::decoded(files.data.bytes(4), 32 * i),
        i < files.data.size(5) / 12 ==> g.battle_fields@[i].held_at(files.data.bytes(5), 12 * i),
        i < files.data.size(6) / 20 ==> g.level_up_magics@[i].held_at(files.data.bytes(6), 20 * i),
        i < 10 && j < 2 ==> g.battle_effect_index@[i]@[j] == wordio::word_at(files.data.bytes(11), 4 * i + 2 * j),
        i < 5 && j < 5 ==> g.enemy_pos@[i]@[j].0 == wordio::word_at(files.data.bytes(13), 20 * i + 4 * j),
        i < 5 && j < 5 ==> g.enemy_pos@[i]@[j].1 == wordio::word_at(files.data.bytes(13), 20 * i + 4 * j + 2),
        i < 100 ==> g.level_up_exp@[i] == wordio::word_at(files.data.bytes(14), 2 * i),
{
    if i < files.sss.size(4) / 8 {
        assert(g.script_entries@[i].held_at(files.sss.bytes(4), 8 * i));
        if j < 3 {
            assert(wordio::words(files.sss.bytes(4), 8 * i + 2, 3)[j] == wordio::word_at(files.sss.bytes(4), 8 * i + 2 + 2 * j));
        }
    }
    if i < files.data.size(0) / 18 && j < 9 {
        assert(g.stores@[i].held_at(files.data.bytes(0), 18 * i));
        assert(wordio::words(files.data.bytes(0), 18 * i, 9)[j] == wordio::word_at(files.data.bytes(0), 18 * i + 2 * j));
    }
    if i < files.data.size(2) / 10 && j < 5 {
        assert(g.enemy_teams@[i].held_at(files.data.bytes(2), 10 * i));
        assert(wordio::words(files.data.bytes(2), 10 * i, 5)[j] == wordio::word_at(files.data.bytes(2), 10 * i + 2 * j));
    }
    if i < 10 && j < 2 {
        assert(g.battle_effect_index@[i]@ == wordio::words(files.data.bytes(11), 4 * i, 2));
        assert(wordio::words(files.data.bytes(11), 4 * i, 2)[j] == wordio::word_at(files.data.bytes(11), 4 * i + 2 * j));
    }
    if i < 5 && j < 5 {
        assert(g.enemy_pos@[i]@[j] == g.enemy_pos@[i]@[j]);
    }
    if i < 100 {
        assert(wordio::words(files.data.bytes(14), 0, 100)[i] == wordio::word_at(files.data.bytes(14), 0 + 2 * i));
    }
}

/// A new game starts with the event objects, scenes, objects and roles of their
/// chunks, one record behind the other.
pub proof fn law_new_games_start_from_their_chunks(g: GameData, files: GameFiles, i: int, j: int)
    requires
        g.starts_from(&files),
        g.sized_by(&files),
        0 <= i,
        0 <= j < 6,
    ensures
        i < files.sss.size(0) / 32 ==> g.event_objects@[i] == EventObject::decoded(files.sss.bytes(0), 32 * i),
        i < 300 ==> g.scenes@[i] == Scene::decoded(files.sss.bytes(1), 8 * i),
        i < 600 ==> g.objects@[i].data@[if j < 5 { j } else { 6 }] == wordio::word_at(files.sss.bytes(2), 12 * i + 2 * j),
        i < 600 ==> g.objects@[i].data@[5] == 0,
        g.player_roles.level@[j] == wordio::word_at(files.data.bytes(3), 72 + 2 * j),
{
    if i < 300 {
        assert(g.scenes@[i] == Scene::decoded(files.sss.bytes(1), 0 + 8 * i));
    }
    if i < 600 {
        let o = g.objects@[i];
        assert(o.held_at(files.sss.bytes(2), 0 + 12 * i));
        assert(o.stored()[j] == wordio::words(files.sss.bytes(2), 12 * i, 6)[j]);
    }
    assert(g.player_roles.row(6) == wordio::words(files.data.bytes(3), 72, 6));
    assert(wordio::words(files.data.bytes(3), 72, 6)[j] == wordio::word_at(files.data.bytes(3), 72 + 2 * j));
}

} // verus!
