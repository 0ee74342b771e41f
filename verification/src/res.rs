//! The loaded resources: the current map, the sprites of the current scene's
//! event objects and those of the party.

use vstd::prelude::*;

use crate::data::{DataError, GameFiles};
use crate::gamedata::GameData;
use crate::global::{Globals, LOAD_GLOBAL_DATA, LOAD_PLAYER_SPRITE, LOAD_SCENE};
use crate::map::TileMap;
use crate::records::EventObject;
use crate::surface;
use crate::wordio;

verus! {

/// What is loaded.
pub struct Resources {
    /// The current map; none before the first scene.
    pub map: Option<TileMap>,
    /// The sprites of the current scene's event objects; none for objects
    /// without a sprite.
    pub event_object_sprites: Vec<Option<Vec<u8>>>,
    /// The index of the current scene's first event object.
    pub event_object_base: usize,
    /// The sprites of party members and followers.
    pub player_sprites: [Option<Vec<u8>>; 5],
}

/// What a load brought in.
#[derive(Clone, Copy, Debug, PartialEq, Eq, Structural)]
pub struct LoadedFlags {
    pub global_data: bool,
    pub scene: bool,
    pub player_sprite: bool,
}

impl Default for LoadedFlags {
    fn default() -> (f: LoadedFlags)
        ensures
            !f.global_data && !f.scene && !f.player_sprite,
    {
        LoadedFlags { global_data: false, scene: false, player_sprite: false }
    }
}

impl Default for Resources {
    fn default() -> (r: Resources)
        ensures
            r.is_empty(),
    {
        Resources {
            map: None,
            event_object_sprites: Vec::new(),
            event_object_base: 0,
            player_sprites: [None, None, None, None, None],
        }
    }
}

/// The number of frames that animate by themselves: all but the end marker.
pub open spec fn auto_frames(sprite: Seq<u8>) -> u16 {
    let count = wordio::word_at(sprite, 0);
    if count > 0 {
        (count - 1) as u16
    } else {
        0
    }
}

impl Globals {
    /// A game can be set up from the current save slot.
    pub open spec fn set_up_possible(&self, save: Option<&[u8]>) -> bool {
        Globals::slot_loads(self.current_save_slot as i32, save) || self.files.has_first(
            GameFiles::default_chunks(),
            4,
        )
    }

    /// The index of the current scene's first event object.
    pub open spec fn scene_start(&self) -> int {
        self.game.scenes@[self.num_scene - 1].event_object_index as int
    }

    /// The index behind the current scene's last event object.
    pub open spec fn scene_end(&self) -> int {
        self.game.scenes@[self.num_scene as int].event_object_index as int
    }

    /// Event object `k` of the current scene.
    pub open spec fn scene_object(&self, k: int) -> EventObject {
        self.game.event_objects@[self.scene_start() + k]
    }

    /// Why the map of the current scene cannot be loaded.
    pub open spec fn map_error(&self) -> Option<DataError> {
        let num = self.game.scenes@[self.num_scene - 1].map_num;
        if !(1 <= self.num_scene <= self.game.scenes@.len()) {
            Some(DataError::BadScene)
        } else if !self.data_dir.map.has_unpacked(num as int) {
            Some(DataError::ChunkCorrupt(num as usize))
        } else if !self.data_dir.gop.has(num as int) {
            Some(DataError::ChunkMissing(num as usize))
        } else {
            None
        }
    }

    /// The tables say where the current scene's event objects start and end.
    pub open spec fn scene_bounded(&self) -> bool {
        &&& 1 <= self.num_scene < self.game.scenes@.len()
        &&& self.scene_start() <= self.scene_end()
    }

    /// Why the sprite of event object `k` of the current scene cannot be
    /// loaded.
    pub open spec fn object_error(&self, k: int) -> Option<DataError> {
        let n = self.scene_object(k).sprite_num;
        if self.scene_start() + k >= self.game.event_objects@.len() {
            Some(DataError::BadScene)
        } else if n != 0 && !self.files.mgo.has_unpacked(n as int) {
            Some(DataError::ChunkCorrupt(n as usize))
        } else {
            None
        }
    }

    /// How many of the first `n` event objects of the current scene come
    /// before the first whose sprite cannot be loaded.
    pub open spec fn objects_before_error(&self, n: int) -> int
        decreases n,
    {
        if n <= 0 {
            0
        } else {
            let c = self.objects_before_error(n - 1);
            if c == n - 1 && self.object_error(c) is None {
                n
            } else {
                c
            }
        }
    }

    /// How many event objects of the current scene get their sprites.
    pub open spec fn objects_loading(&self) -> int {
        if self.map_error() is None && self.scene_bounded() {
            self.objects_before_error(self.scene_end() - self.scene_start())
        } else {
            0
        }
    }

    /// Why the current scene cannot be loaded: the map comes first, then the
    /// sprites one by one.
    pub open spec fn scene_error(&self) -> Option<DataError> {
        if self.map_error() is Some {
            self.map_error()
        } else if !self.scene_bounded() {
            Some(DataError::BadScene)
        } else if self.objects_loading() < self.scene_end() - self.scene_start() {
            self.object_error(self.objects_loading())
        } else {
            None
        }
    }

    /// Why the sprite of member or follower `i` cannot be loaded.
    pub open spec fn member_error(&self, i: int) -> Option<DataError> {
        if i >= 5 || i <= self.max_party_member_index && self.party@[i].player_role >= 6 {
            Some(DataError::BadParty)
        } else if !self.files.mgo.has_unpacked(self.member_sprite(i)) {
            Some(DataError::ChunkCorrupt(self.member_sprite(i) as usize))
        } else {
            None
        }
    }

    /// How many of the first `n` members and followers come before the first
    /// whose sprite cannot be loaded.
    pub open spec fn members_before_error(&self, n: int) -> int
        decreases n,
    {
        if n <= 0 {
            0
        } else {
            let c = self.members_before_error(n - 1);
            if c == n - 1 && self.member_error(c) is None {
                n
            } else {
                c
            }
        }
    }

    /// Why the sprites of the party cannot be loaded.
    pub open spec fn party_error(&self) -> Option<DataError> {
        let c = self.members_before_error(self.walkers());
        if c < self.walkers() {
            self.member_error(c)
        } else {
            None
        }
    }

    /// The archive entry of a party member's sprite; followers hold it in
    /// place of a role.
    pub open spec fn member_sprite(&self, i: int) -> int {
        if i <= self.max_party_member_index {
            self.game.player_roles.sprite_num@[self.party@[i].player_role as int] as int
        } else {
            self.party@[i].player_role as int
        }
    }

    /// The number of party members and followers.
    pub open spec fn walkers(&self) -> int {
        self.max_party_member_index + 1 + self.follower_num
    }

    /// Members and followers fit the tables and members play known roles.
    pub open spec fn walkers_known(&self) -> bool {
        &&& self.walkers() <= 5
        &&& forall|i: int| 0 <= i <= self.max_party_member_index ==> (#[trigger] self.party@[i]).player_role < 6
    }

    /// What fails first ends the count.
    proof fn lemma_objects_before_error(&self, k: int, n: int)
        requires
            0 <= k < n,
            self.objects_before_error(k) == k,
            self.object_error(k) is Some,
        ensures
            self.objects_before_error(n) == k,
        decreases n,
    {
        if n > k + 1 {
            self.lemma_objects_before_error(k, n - 1);
        }
    }

    /// What fails first ends the count.
    proof fn lemma_members_before_error(&self, k: int, n: int)
        requires
            0 <= k < n,
            self.members_before_error(k) == k,
            self.member_error(k) is Some,
        ensures
            self.members_before_error(n) == k,
        decreases n,
    {
        if n > k + 1 {
            self.lemma_members_before_error(k, n - 1);
        }
    }

    /// `self` is `before` with its scene loaded as far as that is possible:
    /// the wave effect is ended if a scene is being entered, the event objects
    /// whose sprites were loaded know their number of self-animating frames,
    /// and the party comes to the middle of the screen at the end.
    pub open spec fn scene_loaded_from(&self, before: &Globals) -> bool {
        &&& *self == (Globals {
            game: GameData { event_objects: self.game.event_objects, ..before.game },
            screen_wave: if before.entering_scene { 0 } else { before.screen_wave },
            wave_progression: if before.entering_scene { 0 } else { before.wave_progression },
            partyoffset: if before.scene_error() is None { (160, 112) } else { before.partyoffset },
            ..*before
        })
        &&& self.frames_filled_from(before, before.objects_loading())
    }

    /// The event objects are those of `before`, with the number of
    /// self-animating frames filled in for those of the first `n` of the
    /// current scene that have a sprite.
    pub open spec fn frames_filled_from(&self, before: &Globals, n: int) -> bool {
        &&& self.game.event_objects@.len() == before.game.event_objects@.len()
        &&& forall|i: int|
            0 <= i < before.game.event_objects@.len() ==> #[trigger] self.game.event_objects@[i] == if before.scene_start() <= i
                < before.scene_start() + n && before.game.event_objects@[i].sprite_num != 0 {
                EventObject {
                    sprite_frames_auto: auto_frames(
                        before.files.mgo.unpacked_bytes(before.game.event_objects@[i].sprite_num as int),
                    ),
                    ..before.game.event_objects@[i]
                }
            } else {
                before.game.event_objects@[i]
            }
    }
}

impl Resources {
    /// Nothing is loaded.
    pub open spec fn is_empty(&self) -> bool {
        &&& self.map is None
        &&& self.event_object_sprites@.len() == 0
        &&& self.event_object_base == 0
        &&& forall|i: int| 0 <= i < 5 ==> #[trigger] self.player_sprites@[i] is None
    }

    /// The loaded map, if any, has all its tiles.
    pub open spec fn wf(&self) -> bool {
        self.map matches Some(m) ==> m.wf()
    }

    /// The map is that of the current scene of `g`.
    pub open spec fn map_of(&self, g: &Globals) -> bool {
        let num = g.game.scenes@[g.num_scene - 1].map_num as int;
        self.map matches Some(m) && {
            &&& m.wf()
            &&& m.num == num
            &&& m.tile_sprite@ == g.data_dir.gop.bytes(num)
            &&& forall|i: int|
                0 <= i < 16384 ==> #[trigger] m.tiles@[i] == wordio::dword_at(g.data_dir.map.unpacked_bytes(num), 4 * i)
        }
    }

    /// The sprites are those of the first `n` event objects of the current
    /// scene of `g`.
    pub open spec fn objects_of(&self, g: &Globals, n: int) -> bool {
        &&& self.event_object_base == g.scene_start()
        &&& self.event_object_sprites@.len() == n
        &&& forall|k: int|
            0 <= k < n ==> {
                let n = g.scene_object(k).sprite_num;
                &&& #[trigger] self.event_object_sprites@[k] is Some <==> n != 0
                &&& n != 0 ==> self.event_object_sprites@[k]->0@ == g.files.mgo.unpacked_bytes(n as int)
            }
    }

    /// The map and the sprites are those of the current scene of `g`.
    pub open spec fn scene_of(&self, g: &Globals) -> bool {
        self.map_of(g) && self.objects_of(g, g.scene_end() - g.scene_start())
    }

    /// `self` is `before` with as much of the current scene of `g` as can be
    /// loaded.
    pub open spec fn scene_loaded_from(&self, before: &Resources, g: &Globals) -> bool {
        &&& self.player_sprites == before.player_sprites
        &&& if g.map_error() is Some {
            self.map == before.map
        } else {
            self.map_of(g)
        }
        &&& if g.map_error() is Some || !g.scene_bounded() {
            self.event_object_sprites == before.event_object_sprites && self.event_object_base == before.event_object_base
        } else {
            self.objects_of(g, g.objects_loading())
        }
    }

    /// The party sprites are those of the first `n` members and followers of
    /// `g`.
    pub open spec fn members_of(&self, g: &Globals, n: int) -> bool {
        forall|i: int|
            0 <= i < 5 ==> {
                &&& #[trigger] self.player_sprites@[i] is Some <==> i < n
                &&& i < n ==> self.player_sprites@[i]->0@ == g.files.mgo.unpacked_bytes(g.member_sprite(i))
            }
    }

    /// The party sprites are those of the members and followers of `g`.
    pub open spec fn party_of(&self, g: &Globals) -> bool {
        self.members_of(g, g.walkers())
    }

    /// `self` is `before` with as many sprites of the party of `g` as can be
    /// loaded.
    pub open spec fn party_loaded_from(&self, before: &Resources, g: &Globals) -> bool {
        &&& *self == (Resources { player_sprites: self.player_sprites, ..*before })
        &&& self.members_of(g, g.members_before_error(g.walkers()))
    }

    pub fn new() -> (r: Resources)
        ensures
            r.is_empty(),
    {
        Resources::default()
    }

    /// Load the current scene's map and event-object sprites.
    pub fn load_scene(&mut self, g: &mut Globals) -> (r: Result<(), DataError>)
        ensures
            r == match old(g).scene_error() {
                Some(e) => Err::<(), DataError>(e),
                None => Ok(()),
            },
            final(self).scene_loaded_from(old(self), old(g)),
            final(g).scene_loaded_from(old(g)),
            r is Ok ==> final(self).scene_of(final(g)),
            old(self).wf() ==> final(self).wf(),
    {
        if g.entering_scene {
            g.screen_wave = 0;
            g.wave_progression = 0;
        }
        let ghost g0 = *g;
        let scene: usize = g.num_scene as usize;
        if scene == 0 || scene > g.game.scenes.len() {
            return Err(DataError::BadScene);
        }
        let map_num: usize = g.game.scenes[scene - 1].map_num as usize;
        let map: TileMap = match TileMap::load(&g.data_dir.map, &g.data_dir.gop, map_num) {
            Ok(map) => map,
            Err(e) => {
                return Err(e);
            },
        };
        self.map = Some(map);
        if scene >= g.game.scenes.len() {
            return Err(DataError::BadScene);
        }
        let index: usize = g.game.scenes[scene - 1].event_object_index as usize;
        let end: usize = g.game.scenes[scene].event_object_index as usize;
        if index > end {
            return Err(DataError::BadScene);
        }
        self.event_object_base = index;
        self.event_object_sprites = Vec::new();
        let ghost loaded_map = self.map;
        let count: usize = end - index;
        for k in 0..count
            invariant
                index == old(g).scene_start(),
                end == old(g).scene_end(),
                count == end - index,
                old(g).map_error() is None,
                old(g).scene_bounded(),
                old(g).objects_before_error(k as int) == k,
                k == 0 || index + k <= old(g).game.event_objects@.len(),
                g0 == (Globals {
                    screen_wave: if old(g).entering_scene { 0 } else { old(g).screen_wave },
                    wave_progression: if old(g).entering_scene { 0 } else { old(g).wave_progression },
                    ..*old(g)
                }),
                *g == (Globals { game: GameData { event_objects: g.game.event_objects, ..g0.game }, ..g0 }),
                g.frames_filled_from(old(g), k as int),
                self.map == loaded_map,
                self.map_of(old(g)),
                self.objects_of(old(g), k as int),
                self.player_sprites == old(self).player_sprites,
        {
            let ghost loads = old(g).object_error(k as int);
            proof {
                assert(old(g).objects_before_error(k + 1) == if loads is None { k + 1 } else { k as int });
                if loads is Some {
                    old(g).lemma_objects_before_error(k as int, count as int);
                }
            }
            if index + k >= g.game.event_objects.len() {
                return Err(DataError::BadScene);
            }
            let n: usize = g.game.event_objects[index + k].sprite_num as usize;
            assert(g.game.event_objects@[index + k] == old(g).game.event_objects@[index + k]);
            if n == 0 {
                self.event_object_sprites.push(None);
            } else {
                let sprite: Vec<u8> = match g.files.mgo.chunk_decompressed(n) {
                    Ok(sprite) => sprite,
                    Err(e) => {
                        return Err(e);
                    },
                };
                g.game.event_objects[index + k].sprite_frames_auto = surface::sprite_num_frames(sprite.as_slice()) as u16;
                self.event_object_sprites.push(Some(sprite));
            }
        }
        g.partyoffset = (160, 112);
        proof {
            assert forall|j: int| 0 <= j < count implies (#[trigger] g.scene_object(j)).sprite_num == old(g).scene_object(j).sprite_num by {
                assert(g.game.event_objects@[index + j].sprite_num == old(g).game.event_objects@[index + j].sprite_num);
            }
            assert(g.scene_start() == index && g.scene_end() == end);
        }
        Ok(())
    }

    /// Load the sprites of party members and followers.
    pub fn load_player_sprites(&mut self, g: &Globals) -> (r: Result<(), DataError>)
        ensures
            r == match g.party_error() {
                Some(e) => Err::<(), DataError>(e),
                None => Ok(()),
            },
            final(self).party_loaded_from(old(self), g),
            r is Ok ==> final(self).party_of(g),
    {
        self.player_sprites = [None, None, None, None, None];
        let members: usize = g.max_party_member_index as usize + 1;
        let walkers: usize = members + g.follower_num as usize;
        for i in 0..walkers
            invariant
                members == g.max_party_member_index + 1,
                walkers == g.walkers(),
                g.members_before_error(i as int) == i,
                *self == (Resources { player_sprites: self.player_sprites, ..*old(self) }),
                self.members_of(g, i as int),
        {
            proof {
                assert(g.members_before_error(i + 1) == if g.member_error(i as int) is None { i + 1 } else { i as int });
                if g.member_error(i as int) is Some {
                    g.lemma_members_before_error(i as int, walkers as int);
                }
            }
            if i >= 5 {
                return Err(DataError::BadParty);
            }
            let role: usize = g.party[i].player_role as usize;
            if i < members && role >= 6 {
                return Err(DataError::BadParty);
            }
            let sprite_num: usize = if i < members {
                g.game.player_roles.sprite_num[role] as usize
            } else {
                role
            };
            assert(sprite_num == g.member_sprite(i as int));
            match g.files.mgo.chunk_decompressed(sprite_num) {
                Ok(sprite) => {
                    self.player_sprites[i] = Some(sprite);
                },
                Err(e) => {
                    return Err(e);
                },
            }
        }
        Ok(())
    }

    /// The game is set up, where that is asked for.
    pub open spec fn set_up_step(g0: &Globals, g1: &Globals, save: Option<&[u8]>, playtime: Option<&[u8]>) -> bool {
        if g0.load_flags & LOAD_GLOBAL_DATA != 0 {
            g1.set_up_from(g0, g0.current_save_slot as i32, save, playtime)
        } else {
            *g1 == *g0
        }
    }

    /// The scene is loaded as far as possible, where that is asked for.
    pub open spec fn scene_step(flags: u8, s0: &Resources, s1: &Resources, g0: &Globals, g1: &Globals) -> bool {
        if flags & LOAD_SCENE != 0 {
            s1.scene_loaded_from(s0, g0) && g1.scene_loaded_from(g0)
        } else {
            *s1 == *s0 && *g1 == *g0
        }
    }

    /// The party is loaded as far as possible, where that is asked for.
    pub open spec fn party_step(flags: u8, s0: &Resources, s1: &Resources, g: &Globals) -> bool {
        if flags & LOAD_PLAYER_SPRITE != 0 {
            s1.party_loaded_from(s0, g)
        } else {
            *s1 == *s0
        }
    }

    /// What a load does and how it ends: its steps come one after the other,
    /// and the first that fails ends it with its error.
    pub open spec fn loaded_by(
        s0: &Resources,
        s1: &Resources,
        g0: &Globals,
        g1: &Globals,
        save: Option<&[u8]>,
        playtime: Option<&[u8]>,
        r: Result<LoadedFlags, DataError>,
    ) -> bool {
        let flags = g0.load_flags;
        let with_scene = flags & LOAD_SCENE != 0;
        let with_party = flags & LOAD_PLAYER_SPRITE != 0;
        &&& if flags == 0 {
            &&& r == Ok::<LoadedFlags, DataError>(LoadedFlags { global_data: false, scene: false, player_sprite: false })
            &&& *s1 == *s0
            &&& *g1 == *g0
        } else if flags & LOAD_GLOBAL_DATA != 0 && !g0.set_up_possible(save) {
            &&& r matches Err(e) && g0.files.first_missing(GameFiles::default_chunks(), e)
            &&& *s1 == *s0
            &&& g1.not_set_up_from(g0, g0.current_save_slot as i32)
        } else {
            exists|mid: Globals, entered: Globals, s: Resources|
                {
                    &&& Resources::set_up_step(g0, &mid, save, playtime)
                    &&& #[trigger] Resources::scene_step(flags, s0, &s, &mid, &entered)
                    &&& if with_scene && mid.scene_error() is Some {
                        &&& r == Err::<LoadedFlags, DataError>(mid.scene_error()->0)
                        &&& *s1 == s
                        &&& *g1 == entered
                    } else if with_party && entered.party_error() is Some {
                        &&& r == Err::<LoadedFlags, DataError>(entered.party_error()->0)
                        &&& Resources::party_step(flags, &s, s1, &entered)
                        &&& *g1 == entered
                    } else {
                        &&& r == Ok::<LoadedFlags, DataError>(
                            LoadedFlags {
                                global_data: flags & LOAD_GLOBAL_DATA != 0,
                                scene: with_scene,
                                player_sprite: with_party,
                            },
                        )
                        &&& Resources::party_step(flags, &s, s1, &entered)
                        &&& *g1 == (Globals { load_flags: 0, ..entered })
                        &&& with_scene ==> s1.scene_of(g1)
                        &&& with_party ==> s1.party_of(g1)
                    }
                }
        }
        &&& g1.game.addressable()
        &&& s0.wf() ==> s1.wf()
    }

    /// Load what the load flags ask for, given the files of the current save
    /// slot where they could be read. Says what was loaded; music and
    /// equipment effects follow from that.
    pub fn load_resources(&mut self, g: &mut Globals, save: Option<&[u8]>, playtime: Option<&[u8]>) -> (r: Result<
        LoadedFlags,
        DataError,
    >)
        requires
            old(g).game.addressable(),
        ensures
            Resources::loaded_by(old(self), final(self), old(g), final(g), save, playtime, r),
    {
        let mut done: LoadedFlags = LoadedFlags::default();
        let flags: u8 = g.load_flags;
        if flags == 0 {
            return Ok(done);
        }
        if flags & LOAD_GLOBAL_DATA != 0 {
            match g.init_game_data(g.current_save_slot as i32, save, playtime) {
                Ok(()) => {},
                Err(e) => {
                    return Err(e);
                },
            }
            done.global_data = true;
        }
        let ghost mid = *g;
        if flags & LOAD_SCENE != 0 {
            match self.load_scene(g) {
                Ok(()) => {},
                Err(e) => {
                    assert(Resources::scene_step(flags, old(self), self, &mid, g));
                    return Err(e);
                },
            }
            done.scene = true;
        }
        let ghost entered = *g;
        let ghost s = *self;
        assert(Resources::scene_step(flags, old(self), &s, &mid, &entered));
        if flags & LOAD_PLAYER_SPRITE != 0 {
            match self.load_player_sprites(g) {
                Ok(()) => {},
                Err(e) => {
                    return Err(e);
                },
            }
            done.player_sprite = true;
        }
        g.load_flags = 0;
        proof {
            assert(self.map == s.map);
            if done.scene {
                assert forall|k: int| 0 <= k < s.event_object_sprites@.len() implies g.scene_object(k) == entered.scene_object(k) by {}
            }
            assert forall|i: int| 0 <= i < 5 implies #[trigger] g.member_sprite(i) == entered.member_sprite(i) by {}
        }
        Ok(done)
    }

    /// The sprite of a party member or follower.
    pub fn player_sprite(&self, player_index: usize) -> (r: Option<&[u8]>)
        ensures
            r is Some <==> player_index < 5 && self.player_sprites@[player_index as int] is Some,
            r matches Some(s) ==> s@ == self.player_sprites@[player_index as int]->0@,
    {
        if player_index >= 5 {
            return None;
        }
        match &self.player_sprites[player_index] {
            Some(sprite) => Some(sprite.as_slice()),
            None => None,
        }
    }

    /// The sprite of the event object with number `id`, counted from 1 over
    /// all scenes, is loaded.
    pub open spec fn has_object_sprite(&self, id: int) -> bool {
        let k = id - self.event_object_base - 1;
        0 <= k < self.event_object_sprites@.len() && self.event_object_sprites@[k] is Some
    }

    /// Its bytes.
    pub open spec fn object_sprite(&self, id: int) -> Seq<u8> {
        self.event_object_sprites@[id - self.event_object_base - 1]->0@
    }

    /// The sprite of an event object, by its number counted from 1.
    pub fn event_object_sprite(&self, event_object_id: usize) -> (r: Option<&[u8]>)
        ensures
            r is Some <==> self.has_object_sprite(event_object_id as int),
            r matches Some(s) ==> s@ == self.object_sprite(event_object_id as int),
    {
        if event_object_id <= self.event_object_base {
            return None;
        }
        let idx: usize = event_object_id - self.event_object_base - 1;
        if idx >= self.event_object_sprites.len() {
            return None;
        }
        match &self.event_object_sprites[idx] {
            Some(sprite) => Some(sprite.as_slice()),
            None => None,
        }
    }
}

/// The frames that animate by themselves are all of a sprite but one.
pub proof fn law_all_but_one_frame_animate(sprite: Seq<u8>)
    requires
        sprite.len() >= 2,
    ensures
        sprite[0] + 0x100 * sprite[1] > 0 ==> auto_frames(sprite) + 1 == sprite[0] + 0x100 * sprite[1],
        sprite[0] + 0x100 * sprite[1] == 0 ==> auto_frames(sprite) == 0,
{
}

/// Which sprites the party has: members that of their role, followers their own.
pub proof fn law_walkers_have_sprites(g: Globals, i: int)
    requires
        0 <= i < g.walkers(),
    ensures
        g.walkers() == 1 + g.max_party_member_index + g.follower_num,
        i <= g.max_party_member_index ==> g.member_sprite(i) == g.game.player_roles.sprite_num@[g.party@[i].player_role as int],
        i > g.max_party_member_index ==> g.member_sprite(i) == g.party@[i].player_role,
{
}

/// A scene loads only if its map and its tiles are there, and so is every sprite
/// that an event object of the scene has.
pub proof fn law_scenes_load_only_with_all_there(g: Globals, i: int)
    requires
        1 <= g.num_scene < g.game.scenes@.len(),
        g.scene_error() is None,
    ensures
        g.data_dir.map.has_unpacked(g.game.scenes@[g.num_scene - 1].map_num as int),
        g.data_dir.gop.has(g.game.scenes@[g.num_scene - 1].map_num as int),
        g.game.scenes@[g.num_scene - 1].event_object_index <= g.game.scenes@[g.num_scene as int].event_object_index,
        g.game.scenes@[g.num_scene - 1].event_object_index <= i < g.game.scenes@[g.num_scene as int].event_object_index ==> {
            let n = g.game.event_objects@[i].sprite_num;
            i < g.game.event_objects@.len() && (n == 0 || g.files.mgo.has_unpacked(n as int))
        },
{
    lemma_objects_before_error(g, g.scene_end() - g.scene_start());
    if g.scene_start() <= i < g.scene_end() {
        assert(g.object_error(i - g.scene_start()) is None);
        assert(g.scene_object(i - g.scene_start()) == g.game.event_objects@[i]);
    }
}

/// A scene whose map, tiles and sprites are there loads.
pub proof fn law_scenes_load_with_all_there(g: Globals)
    requires
        1 <= g.num_scene < g.game.scenes@.len(),
        g.data_dir.map.has_unpacked(g.game.scenes@[g.num_scene - 1].map_num as int),
        g.data_dir.gop.has(g.game.scenes@[g.num_scene - 1].map_num as int),
        g.game.scenes@[g.num_scene - 1].event_object_index <= g.game.scenes@[g.num_scene as int].event_object_index
            <= g.game.event_objects@.len(),
        forall|i: int|
            0 <= i < g.game.event_objects@.len() ==> (#[trigger] g.game.event_objects@[i]).sprite_num == 0
                || g.files.mgo.has_unpacked(g.game.event_objects@[i].sprite_num as int),
    ensures
        g.scene_error() is None,
{
    let n = g.scene_end() - g.scene_start();
    lemma_objects_before_error(g, n);
    let c = g.objects_before_error(n);
    if c < n {
        let i = g.scene_start() + c;
        assert(g.scene_object(c) == g.game.event_objects@[i]);
        assert(g.object_error(c) is None);
    }
}

proof fn lemma_objects_before_error(g: Globals, n: int)
    requires
        n >= 0,
    ensures
        0 <= g.objects_before_error(n) <= n,
        forall|k: int| 0 <= k < g.objects_before_error(n) ==> #[trigger] g.object_error(k) is None,
        g.objects_before_error(n) < n ==> g.object_error(g.objects_before_error(n)) is Some,
    decreases n,
{
    if n > 0 {
        lemma_objects_before_error(g, n - 1);
    }
}

/// Sprites of event objects are found by their numbers, counted from 1 over all
/// scenes.
pub proof fn law_sprites_are_found_by_number(s: Resources, g: Globals, k: int)
    requires
        s.objects_of(&g, g.scene_end() - g.scene_start()),
        0 <= k < g.scene_end() - g.scene_start(),
    ensures
        ({
            let at = g.game.scenes@[g.num_scene - 1].event_object_index + k;
            let o = g.game.event_objects@[at];
            &&& s.has_object_sprite(at + 1) <==> o.sprite_num != 0
            &&& o.sprite_num != 0 ==> s.object_sprite(at + 1) == g.files.mgo.unpacked_bytes(o.sprite_num as int)
        }),
{
    assert(s.event_object_sprites@[k] is Some <==> g.scene_object(k).sprite_num != 0);
}

/// A scene that is loaded puts the party into the middle of the screen, and one
/// that is entered starts without a wave.
pub proof fn law_loaded_scenes_start_afresh(before: Globals, after: Globals)
    requires
        after.scene_loaded_from(&before),
    ensures
        before.scene_error() is None ==> after.partyoffset == (160i32, 112i32),
        before.entering_scene ==> after.screen_wave == 0 && after.wave_progression == 0,
        !before.entering_scene ==> after.screen_wave == before.screen_wave && after.wave_progression
            == before.wave_progression,
        after.viewport == before.viewport,
        after.num_scene == before.num_scene,
{
}

} // verus!
