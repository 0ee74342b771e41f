//! What a frame of play asks for: menus, searching, waiting for keys, using and
//! equipping items, and loading.

use vstd::prelude::*;

use crate::data::DataError;
use crate::engine::Engine;
use crate::gamedata::GameData;
use crate::geometry::Pos;
use crate::global::{
    Globals, ITEMFLAG_APPLY_TO_ALL, ITEMFLAG_CONSUMING,
};
use crate::input::{
    Keyboard, KEY_FLEE, KEY_FORCE, KEY_MENU, KEY_SEARCH, KEY_STATUS, KEY_THROW_ITEM, KEY_USE_ITEM,
};
use crate::inventory;
use crate::records::{EventObject, GameObject, Inventory, Party};
use crate::res::{LoadedFlags, Resources};
use crate::search;
use crate::walk;
use crate::zones;

verus! {

/// What the keys ask for behind a frame.
#[derive(Clone, Copy, Debug, PartialEq, Eq, Structural)]
pub enum FrameCommand {
    Menu,
    UseItem,
    EquipItem,
    Magic,
    Status,
    Search,
    Quit,
    Nothing,
}

/// What pressed keys ask for; the first in the list counts.
pub open spec fn command_of(keys: u32) -> FrameCommand {
    if keys & KEY_MENU != 0 {
        FrameCommand::Menu
    } else if keys & KEY_USE_ITEM != 0 {
        FrameCommand::UseItem
    } else if keys & KEY_THROW_ITEM != 0 {
        FrameCommand::EquipItem
    } else if keys & KEY_FORCE != 0 {
        FrameCommand::Magic
    } else if keys & KEY_STATUS != 0 {
        FrameCommand::Status
    } else if keys & KEY_SEARCH != 0 {
        FrameCommand::Search
    } else if keys & KEY_FLEE != 0 {
        FrameCommand::Quit
    } else {
        FrameCommand::Nothing
    }
}

/// What was found by searching.
#[derive(Clone, Copy, Debug, PartialEq, Eq, Structural)]
pub struct Found {
    /// The event object, counted from 0.
    pub at: usize,
    pub script: u16,
    /// The scene has changed and is to be shown before the script runs.
    pub show: bool,
}

/// A wait for a key.
#[derive(Clone, Copy, Debug, PartialEq, Eq, Structural)]
pub struct Wait {
    /// When the wait ends; none for a wait without an end.
    pub deadline: Option<u64>,
    /// Any key ends the wait.
    pub any: bool,
}

impl Wait {
    /// How many milliseconds to wait at a time before the keys are looked at
    /// again; none when the wait is over.
    pub fn pending(&self, now: u64) -> (ms: Option<u64>)
        ensures
            ms == if self.deadline matches Some(t) && now >= t { None } else { Some(5u64) },
    {
        match self.deadline {
            Some(t) => if now >= t {
                None
            } else {
                Some(5)
            },
            None => Some(5),
        }
    }
}

/// What is to be done behind a load.
#[derive(Clone, Copy, Debug, PartialEq, Eq, Structural)]
pub enum AfterLoad {
    /// Work out the effects of what the party wears.
    UpdateEquipments,
    /// Play a song over and over, fading in over so many seconds.
    Music { song: u16, fade_secs: u8 },
}

/// The load brought the data of a game.
pub open spec fn brings_game(r: Result<LoadedFlags, DataError>) -> bool {
    r matches Ok(done) && done.global_data
}

/// How long the game pauses when what was found has had its turn, in
/// milliseconds.
pub const SEARCH_PAUSE_MS: u64 = 50;

/// How far the use of an item has come.
#[derive(Clone, Copy, Debug, PartialEq, Eq, Structural)]
pub enum ItemUse {
    /// An item is to be chosen.
    Choose,
    /// Somebody to use the item on is to be chosen.
    Target { object: u16, flags: u16 },
    /// A script runs: for an event object or role, and on somebody chosen or on
    /// all.
    Run { object: u16, flags: u16, script: u16, on: u16, all: bool },
    /// It is over.
    Done,
}

/// The item is one of the objects.
pub open spec fn is_object(g: &Globals, object: u16) -> bool {
    object < g.game.objects@.len()
}

/// What an object runs when it is used.
pub open spec fn use_script(g: &Globals, object: u16) -> u16 {
    g.game.objects@[object as int].data@[2]
}

/// The inventory after one of an item is taken away.
pub open spec fn one_taken(inv: Seq<Inventory>, object: u16) -> Seq<Inventory> {
    let slot = inventory::slot_of(inv, object, 0);
    if object == 0 || !inventory::holds(inv, object) {
        inv
    } else {
        inv.update(
            slot,
            Inventory { amount: if inv[slot].amount > 0 { (inv[slot].amount - 1) as u16 } else { 0 }, ..inv[slot] },
        )
    }
}

/// Where the cursor of the item menu stands after one of an item is taken
/// away: before the last item, if that was the one.
pub open spec fn cursor_after_taking(g: &Globals, object: u16) -> int {
    let inv = g.inventory@;
    let slot = inventory::slot_of(inv, object, 0);
    if object != 0 && inventory::holds(inv, object) && inv[slot].amount == 1 && slot == g.cur_inv_menu_item && slot + 1 < 256
        && inv[slot + 1].amount == 0 {
        g.cur_inv_menu_item - 1
    } else {
        g.cur_inv_menu_item as int
    }
}

/// Searching at position `i` finds event object `k`.
pub open spec fn found_at(e: &Engine, i: int, k: int) -> bool {
    let o = e.globals.game.event_objects@[k];
    &&& o.state > 0
    &&& o.trigger_mode < 4
    &&& i < o.trigger_mode * 6 - 4
    &&& search::search_tile(search::searched(e.player_pos(), e.globals.party_direction as int, i)) == search::search_tile(
        zones::place_of(o),
    )
}

/// The first of the event objects `from..to` that searching at position `i`
/// finds.
pub open spec fn first_found_at(e: &Engine, i: int, from: int, to: int) -> Option<int>
    decreases to - from,
{
    if to <= from {
        None
    } else {
        match first_found_at(e, i, from, to - 1) {
            Some(k) => Some(k),
            None => if found_at(e, i, to - 1) {
                Some(to - 1)
            } else {
                None
            },
        }
    }
}

/// The event object that searching at the first `n` positions finds: the
/// position counts first.
pub open spec fn first_found(e: &Engine, n: int) -> Option<int>
    decreases n,
{
    if n <= 0 {
        None
    } else {
        match first_found(e, n - 1) {
            Some(k) => Some(k),
            None => first_found_at(e, n - 1, e.globals.scene_start(), e.globals.scene_end()),
        }
    }
}

proof fn lemma_first_found_at(e: &Engine, i: int, from: int, mid: int, to: int)
    requires
        from <= mid <= to,
        first_found_at(e, i, from, mid) is Some,
    ensures
        first_found_at(e, i, from, to) == first_found_at(e, i, from, mid),
    decreases to - mid,
{
    if mid < to {
        lemma_first_found_at(e, i, from, mid, to - 1);
    }
}

proof fn lemma_first_found(e: &Engine, n: int, m: int)
    requires
        0 <= n <= m,
        first_found(e, n) is Some,
    ensures
        first_found(e, m) == first_found(e, n),
    decreases m - n,
{
    if n < m {
        lemma_first_found(e, n, m - 1);
    }
}

/// The event object shows a standing or walking gesture, so that it can turn.
pub open spec fn can_turn(o: EventObject) -> bool {
    o.sprite_frames * 4 > o.current_frame_num
}

impl Engine {
    /// What a frame does behind the update of the game: unless a scene is
    /// being entered, the party walks, and the scene is to be shown.
    pub fn start_frame(&mut self, now: u64) -> (show: bool)
        requires
            old(self).wf(),
            !old(self).globals.entering_scene ==> old(self).party_ready(now),
        ensures
            final(self).wf(),
            show == !old(self).globals.entering_scene,
            if show {
                Engine::party_walked(old(self), final(self), now)
            } else {
                *final(self) == *old(self)
            },
    {
        if self.globals.entering_scene {
            return false;
        }
        self.update_party(now);
        true
    }

    /// What the keys ask for.
    pub fn frame_command(&self) -> (c: FrameCommand)
        ensures
            c == command_of(self.input@.key_press),
    {
        if self.input.pressed(KEY_MENU) {
            FrameCommand::Menu
        } else if self.input.pressed(KEY_USE_ITEM) {
            FrameCommand::UseItem
        } else if self.input.pressed(KEY_THROW_ITEM) {
            FrameCommand::EquipItem
        } else if self.input.pressed(KEY_FORCE) {
            FrameCommand::Magic
        } else if self.input.pressed(KEY_STATUS) {
            FrameCommand::Status
        } else if self.input.pressed(KEY_SEARCH) {
            FrameCommand::Search
        } else if self.input.pressed(KEY_FLEE) {
            FrameCommand::Quit
        } else {
            FrameCommand::Nothing
        }
    }

    /// The positions that searching looks at.
    pub fn get_search_trigger_range(&self) -> (range: [Pos; 13])
        ensures
            forall|i: int|
                0 <= i < 13 ==> #[trigger] range@[i] == search::searched(
                    self.player_pos(),
                    self.globals.party_direction as int,
                    i,
                ),
    {
        let player: Pos = (
            self.globals.viewport.0 as i64 + self.globals.partyoffset.0 as i64,
            self.globals.viewport.1 as i64 + self.globals.partyoffset.1 as i64,
        );
        search::search_range(player, self.globals.party_direction)
    }

    /// Look for the event object that searching finds.
    fn find_searched(&self) -> (r: Option<usize>)
        requires
            self.scene_in_tables(),
        ensures
            match first_found(self, 13) {
                Some(k) => r matches Some(at) && at == k && at < self.globals.game.event_objects@.len() && at < 0xffff,
                None => r is None,
            },
    {
        let range: [Pos; 13] = self.get_search_trigger_range();
        let (start, end): (usize, usize) = self.scene_range();
        let mut i: usize = 0;
        while i < 13
            invariant
                i <= 13,
                self.scene_in_tables(),
                start == self.globals.scene_start(),
                end == self.globals.scene_end(),
                end <= 0xffff,
                start < end ==> end <= self.globals.game.event_objects@.len(),
                forall|k: int|
                    0 <= k < 13 ==> #[trigger] range@[k] == search::searched(
                        self.player_pos(),
                        self.globals.party_direction as int,
                        k,
                    ),
                first_found(self, i as int) is None,
            decreases 13 - i,
        {
            let tile: (i64, i64, bool) = search::tile_of(range[i]);
            let mut k: usize = start;
            while k < end
                invariant
                    i < 13,
                    start <= k,
                    k <= end || k == start,
                    self.scene_in_tables(),
                    start == self.globals.scene_start(),
                    end == self.globals.scene_end(),
                    end <= 0xffff,
                    start < end ==> end <= self.globals.game.event_objects@.len(),
                    (tile.0 as int, tile.1 as int, tile.2) == search::search_tile(
                        search::searched(self.player_pos(), self.globals.party_direction as int, i as int),
                    ),
                    first_found(self, i as int) is None,
                    first_found_at(self, i as int, start as int, k as int) is None,
                decreases end - k,
            {
                let o: EventObject = self.globals.game.event_objects[k];
                let t: (i64, i64, bool) = search::tile_of((o.x as i64, o.y as i64));
                if o.state > 0 && o.trigger_mode < 4 && (i as i32) < o.trigger_mode as i32 * 6 - 4 && t.0 == tile.0 && t.1
                    == tile.1 && t.2 == tile.2 {
                    proof {
                        assert(found_at(self, i as int, k as int));
                        lemma_first_found_at(self, i as int, start as int, k + 1, end as int);
                        lemma_first_found(self, i + 1, 13);
                    }
                    return Some(k);
                }
                assert(!found_at(self, i as int, k as int));
                k = k + 1;
            }
            i = i + 1;
        }
        None
    }

    /// What searching does and finds.
    pub open spec fn search_does(before: &Engine, after: &Engine, r: Option<Found>) -> bool {
        match first_found(before, 13) {
            None => r is None && *after == *before,
            Some(k) => {
                let g = before.globals;
                let o = g.game.event_objects@[k];
                &&& r == Some(Found { at: k as usize, script: o.trigger_script, show: can_turn(o) })
                &&& if can_turn(o) {
                    &&& after.globals.game.event_objects@ == g.game.event_objects@.update(
                        k,
                        EventObject {
                            current_frame_num: 0,
                            direction: ((g.party_direction + 2) % 4) as u16,
                            ..o
                        },
                    )
                    &&& after.globals.party@ == Seq::new(
                        5,
                        |i: int|
                            if i <= g.max_party_member_index {
                                Party { frame: (g.party_direction * 3) as u16, ..g.party@[i] }
                            } else {
                                g.party@[i]
                            },
                    )
                    &&& *after == (Engine {
                        globals: Globals {
                            party: after.globals.party,
                            ..before.with_objects_of(after).globals
                        },
                        ..*before
                    })
                } else {
                    *after == *before
                }
            },
        }
    }

    /// Search: what is found turns to the party if it can, and its script is
    /// to run.
    pub fn search(&mut self) -> (r: Option<Found>)
        requires
            old(self).wf(),
            old(self).scene_in_tables(),
            first_found(old(self), 13) matches Some(k) && can_turn(old(self).globals.game.event_objects@[k]) ==> {
                &&& old(self).globals.max_party_member_index < 5
                &&& old(self).globals.party_direction * 3 <= u16::MAX
            },
        ensures
            final(self).wf(),
            Engine::search_does(old(self), final(self), r),
    {
        let at: usize = match self.find_searched() {
            Some(at) => at,
            None => {
                return None;
            },
        };
        let o: EventObject = self.globals.game.event_objects[at];
        if o.sprite_frames as u32 * 4 > o.current_frame_num as u32 {
            self.globals.game.event_objects[at] = EventObject {
                current_frame_num: 0,
                direction: ((self.globals.party_direction as u32 + 2) % 4) as u16,
                ..o
            };
            let party: [Party; 5] = self.facing_party();
            self.globals.party = party;
            assert(self.globals.party@ =~= Seq::new(
                5,
                |i: int|
                    if i <= old(self).globals.max_party_member_index {
                        Party { frame: (old(self).globals.party_direction * 3) as u16, ..old(self).globals.party@[i] }
                    } else {
                        old(self).globals.party@[i]
                    },
            ));
            return Some(Found { at, script: o.trigger_script, show: true });
        }
        Some(Found { at, script: o.trigger_script, show: false })
    }

    fn facing_party(&self) -> (r: [Party; 5])
        requires
            self.globals.max_party_member_index < 5,
            self.globals.party_direction * 3 <= u16::MAX,
        ensures
            forall|i: int|
                0 <= i < 5 ==> #[trigger] r@[i] == if i <= self.globals.max_party_member_index {
                    Party { frame: (self.globals.party_direction * 3) as u16, ..self.globals.party@[i] }
                } else {
                    self.globals.party@[i]
                },
    {
        let mut party: [Party; 5] = self.globals.party;
        let last: usize = self.globals.max_party_member_index as usize;
        for i in 0..last + 1
            invariant
                last == self.globals.max_party_member_index,
                last < 5,
                self.globals.party_direction * 3 <= u16::MAX,
                forall|k: int|
                    0 <= k < 5 ==> #[trigger] party@[k] == if k < i {
                        Party { frame: (self.globals.party_direction * 3) as u16, ..self.globals.party@[k] }
                    } else {
                        self.globals.party@[k]
                    },
        {
            let p: Party = party[i];
            party[i] = Party { frame: self.globals.party_direction * 3, ..p };
        }
        party
    }

    /// The script of what was found has run: keep where it starts the next
    /// time, and wait for so many milliseconds. Behind the wait the search is
    /// left.
    pub fn search_done(&mut self, at: usize, result: u16) -> (wait: u64)
        requires
            old(self).wf(),
            at < old(self).globals.game.event_objects@.len(),
        ensures
            wait == 50,
            final(self).wf(),
            final(self).globals.game.event_objects@ == old(self).globals.game.event_objects@.update(
                at as int,
                EventObject { trigger_script: result, ..old(self).globals.game.event_objects@[at as int] },
            ),
            *final(self) == old(self).with_objects_of(final(self)),
    {
        let o: EventObject = self.globals.game.event_objects[at];
        self.globals.game.event_objects[at] = EventObject { trigger_script: result, ..o };
        SEARCH_PAUSE_MS
    }

    /// A search is left: the keys that came in meanwhile are forgotten.
    pub fn search_left(&mut self)
        requires
            old(self).wf(),
        ensures
            final(self).keys_forgotten(old(self)),
    {
        self.input.clear_key_state();
    }

    /// Forget the keys and start to wait for the search or menu key, for so
    /// many milliseconds, or without an end for 0. Nothing is waited for where
    /// waits are answered at once.
    pub fn wait_for_key(&mut self, timeout: u16, now: u64) -> (w: Option<Wait>)
        requires
            old(self).wf(),
            now <= u64::MAX - 0xffff,
        ensures
            w == old(self).wait_begun(timeout, now, false),
            final(self).keys_forgotten(old(self)),
    {
        self.wait_for_key_internal(timeout, now, false)
    }

    /// Forget the keys and start to wait for any key.
    pub fn wait_for_any_key(&mut self, timeout: u16, now: u64) -> (w: Option<Wait>)
        requires
            old(self).wf(),
            now <= u64::MAX - 0xffff,
        ensures
            w == old(self).wait_begun(timeout, now, true),
            final(self).keys_forgotten(old(self)),
    {
        self.wait_for_key_internal(timeout, now, true)
    }

    /// The wait that begins, if one does.
    pub open spec fn wait_begun(&self, timeout: u16, now: u64, any: bool) -> Option<Wait> {
        if self.ui.auto_confirm {
            None
        } else {
            Some(Wait { deadline: if timeout == 0 { None } else { Some((now + timeout) as u64) }, any })
        }
    }

    /// Only the presses of keys are forgotten.
    pub open spec fn keys_forgotten(&self, before: &Engine) -> bool {
        &&& self.wf()
        &&& self.input@ == (Keyboard { key_press: 0, pending_dir: 4, ..before.input@ })
        &&& *self == (Engine { input: self.input, ..*before })
    }

    fn wait_for_key_internal(&mut self, timeout: u16, now: u64, any: bool) -> (w: Option<Wait>)
        requires
            old(self).wf(),
            now <= u64::MAX - 0xffff,
        ensures
            w == old(self).wait_begun(timeout, now, any),
            final(self).keys_forgotten(old(self)),
    {
        self.input.clear_key_state();
        if self.ui.auto_confirm {
            return None;
        }
        Some(
            Wait {
                deadline: if timeout == 0 {
                    None
                } else {
                    Some(now + timeout as u64)
                },
                any,
            },
        )
    }

    /// Whether a wait is answered: by a key, or because the user wants to quit.
    pub fn wait_answered(&self, w: &Wait) -> (b: bool)
        ensures
            b == (w.any && self.input@.key_press != 0 || self.input@.key_press & (KEY_SEARCH | KEY_MENU) != 0
                || self.quit_requested),
    {
        w.any && self.input.key_press != 0 || self.input.pressed(KEY_SEARCH | KEY_MENU) || self.quit_requested
    }

    /// An item was chosen for use; 0 stands for none.
    pub fn game_use_item(&self, object: u16) -> (next: ItemUse)
        requires
            object != 0 ==> is_object(&self.globals, object),
        ensures
            next == {
                let flags = self.globals.game.objects@[object as int].data@[6];
                if object == 0 {
                    ItemUse::Done
                } else if flags & ITEMFLAG_APPLY_TO_ALL == 0 {
                    ItemUse::Target { object, flags }
                } else {
                    ItemUse::Run { object, flags, script: use_script(&self.globals, object), on: 0xffff, all: true }
                }
            },
    {
        if object == 0 {
            return ItemUse::Done;
        }
        let item: GameObject = self.globals.game.objects[object as usize];
        let flags: u16 = item.item_flags();
        if flags & ITEMFLAG_APPLY_TO_ALL == 0 {
            ItemUse::Target { object, flags }
        } else {
            ItemUse::Run { object, flags, script: item.item_script_on_use(), on: 0xffff, all: true }
        }
    }

    /// Somebody was chosen to use an item on; the largest number stands for
    /// nobody, and leads back to the choice of an item.
    pub fn item_target_chosen(&self, object: u16, flags: u16, player: u16) -> (next: ItemUse)
        requires
            player != 0xffff ==> is_object(&self.globals, object),
        ensures
            next == if player == 0xffff {
                ItemUse::Choose
            } else {
                ItemUse::Run { object, flags, script: use_script(&self.globals, object), on: player, all: false }
            },
    {
        if player == 0xffff {
            return ItemUse::Choose;
        }
        let item: GameObject = self.globals.game.objects[object as usize];
        ItemUse::Run { object, flags, script: item.item_script_on_use(), on: player, all: false }
    }

    /// The script of a used item has run: keep where it starts the next time,
    /// and take one away if the item is used up and the script succeeded. An
    /// item for somebody is offered again.
    pub fn item_script_done(&mut self, object: u16, flags: u16, all: bool, result: u16, success: bool) -> (next: ItemUse)
        requires
            is_object(&old(self).globals, object),
        ensures
            next == if all { ItemUse::Done } else { ItemUse::Target { object, flags } },
            ({
                let g = old(self).globals;
                let item = g.game.objects@[object as int];
                let used = final(self).globals.game.objects@[object as int];
                &&& final(self).globals.game.objects@ == g.game.objects@.update(object as int, used)
                &&& used.data@ == item.data@.update(2, result)
                &&& final(self).globals.inventory@ == if flags & ITEMFLAG_CONSUMING != 0 && success {
                    one_taken(g.inventory@, object)
                } else {
                    g.inventory@
                }
                &&& final(self).globals.cur_inv_menu_item == if flags & ITEMFLAG_CONSUMING != 0 && success {
                    cursor_after_taking(&g, object)
                } else {
                    g.cur_inv_menu_item as int
                }
                &&& *final(self) == (Engine {
                    globals: Globals {
                        game: GameData { objects: final(self).globals.game.objects, ..g.game },
                        inventory: final(self).globals.inventory,
                        cur_inv_menu_item: final(self).globals.cur_inv_menu_item,
                        ..g
                    },
                    ..*old(self)
                })
            }),
    {
        let mut item: GameObject = self.globals.game.objects[object as usize];
        item.set_item_script_on_use(result);
        self.globals.game.objects[object as usize] = item;
        if flags & ITEMFLAG_CONSUMING != 0 && success {
            let _ = self.globals.add_item_to_inventory(object, -1);
        }
        if all {
            ItemUse::Done
        } else {
            ItemUse::Target { object, flags }
        }
    }

    /// An item was chosen to be equipped: whether to show the menu for it and
    /// to choose again; 0 stands for none and ends the choice.
    pub fn game_equip_item(&self, object: u16) -> (again: bool)
        ensures
            again == (object != 0),
    {
        object != 0
    }

    /// What is asked for was loaded, or was not. With the data of a game comes
    /// a new session of play.
    pub open spec fn loaded_for(
        &self,
        before: &Engine,
        save: Option<&[u8]>,
        playtime: Option<&[u8]>,
        r: Result<LoadedFlags, DataError>,
    ) -> bool {
        &&& self.wf()
        &&& Resources::loaded_by(&before.res, &self.res, &before.globals, &self.globals, save, playtime, r)
        &&& *self == (Engine {
            globals: self.globals,
            res: self.res,
            playtime_session_start: self.playtime_session_start,
            ..*before
        })
        &&& !brings_game(r) ==> self.playtime_session_start == before.playtime_session_start
    }

    fn load(&mut self, save: Option<&[u8]>, playtime: Option<&[u8]>) -> (r: Result<LoadedFlags, DataError>)
        requires
            old(self).wf(),
            old(self).globals.game.addressable(),
        ensures
            final(self).loaded_for(old(self), save, playtime, r),
    {
        let r: Result<LoadedFlags, DataError> = self.res.load_resources(&mut self.globals, save, playtime);
        match r {
            Ok(done) => {
                if done.global_data {
                    let base: u64 = self.globals.playtime_secs;
                    self.playtime_begin_session(base);
                }
            },
            Err(_) => {},
        }
        r
    }

    /// Load what is asked for before a frame of the main game. What is to be
    /// done behind the load is handed back, or why the game cannot go on. With
    /// the data of a game, the effects of the party's equipment are to be
    /// worked out, and then the music comes in within a second.
    pub fn load_for_frame(&mut self, save: Option<&[u8]>, playtime: Option<&[u8]>) -> (due: Result<
        Vec<AfterLoad>,
        DataError,
    >)
        requires
            old(self).wf(),
            old(self).globals.game.addressable(),
        ensures
            exists|r: Result<LoadedFlags, DataError>|
                {
                    &&& #[trigger] final(self).loaded_for(old(self), save, playtime, r)
                    &&& match r {
                        Ok(_) => due matches Ok(steps) && steps@ == if brings_game(r) {
                            seq![
                                AfterLoad::UpdateEquipments,
                                AfterLoad::Music { song: final(self).globals.num_music, fade_secs: 1 },
                            ]
                        } else {
                            Seq::empty()
                        },
                        Err(e) => due == Err::<Vec<AfterLoad>, DataError>(e),
                    }
                },
    {
        let r: Result<LoadedFlags, DataError> = self.load(save, playtime);
        let ghost outcome = r;
        assert(self.loaded_for(old(self), save, playtime, outcome));
        match r {
            Ok(done) => {
                let mut steps: Vec<AfterLoad> = Vec::new();
                if done.global_data {
                    steps.push(AfterLoad::UpdateEquipments);
                    steps.push(AfterLoad::Music { song: self.globals.num_music, fade_secs: 1 });
                }
                Ok(steps)
            },
            Err(e) => Err(e),
        }
    }

    /// Load what is asked for. What is to be done behind the load is handed
    /// back: with the data of a game, the music starts at once, and then the
    /// effects of the party's equipment are to be worked out. A load that fails
    /// ends where it fails, and nobody is told why.
    pub fn load_resources(&mut self, save: Option<&[u8]>, playtime: Option<&[u8]>) -> (due: Vec<AfterLoad>)
        requires
            old(self).wf(),
            old(self).globals.game.addressable(),
        ensures
            exists|r: Result<LoadedFlags, DataError>|
                {
                    &&& #[trigger] final(self).loaded_for(old(self), save, playtime, r)
                    &&& due@ == if brings_game(r) {
                        seq![
                            AfterLoad::Music { song: final(self).globals.num_music, fade_secs: 0 },
                            AfterLoad::UpdateEquipments,
                        ]
                    } else {
                        Seq::empty()
                    }
                },
    {
        let r: Result<LoadedFlags, DataError> = self.load(save, playtime);
        let ghost outcome = r;
        assert(self.loaded_for(old(self), save, playtime, outcome));
        let mut steps: Vec<AfterLoad> = Vec::new();
        match r {
            Ok(done) => {
                if done.global_data {
                    steps.push(AfterLoad::Music { song: self.globals.num_music, fade_secs: 0 });
                    steps.push(AfterLoad::UpdateEquipments);
                }
            },
            Err(_) => {},
        }
        steps
    }
}

/// Each key asks for its command, and of keys pressed at once the one first in
/// the order counts: the menu, using and equipping items, magic, the status,
/// searching and quitting.
pub proof fn law_commands_have_an_order(keys: u32)
    ensures
        command_of(keys) == FrameCommand::Menu <==> keys & KEY_MENU != 0,
        command_of(keys) == FrameCommand::UseItem <==> keys & KEY_USE_ITEM != 0 && keys & KEY_MENU == 0,
        command_of(keys) == FrameCommand::EquipItem <==> keys & KEY_THROW_ITEM != 0 && keys & KEY_MENU == 0 && keys
            & KEY_USE_ITEM == 0,
        command_of(keys) == FrameCommand::Magic <==> keys & KEY_FORCE != 0 && keys & KEY_MENU == 0 && keys & KEY_USE_ITEM == 0
            && keys & KEY_THROW_ITEM == 0,
        command_of(keys) == FrameCommand::Status <==> keys & KEY_STATUS != 0 && keys & KEY_MENU == 0 && keys & KEY_USE_ITEM
            == 0 && keys & KEY_THROW_ITEM == 0 && keys & KEY_FORCE == 0,
        command_of(keys) == FrameCommand::Search <==> keys & KEY_SEARCH != 0 && keys & KEY_MENU == 0 && keys & KEY_USE_ITEM
            == 0 && keys & KEY_THROW_ITEM == 0 && keys & KEY_FORCE == 0 && keys & KEY_STATUS == 0,
        command_of(keys) == FrameCommand::Quit <==> keys & KEY_FLEE != 0 && keys & KEY_MENU == 0 && keys & KEY_USE_ITEM == 0
            && keys & KEY_THROW_ITEM == 0 && keys & KEY_FORCE == 0 && keys & KEY_STATUS == 0 && keys & KEY_SEARCH == 0,
{
}

/// Searching finds an event object that is there (in whatever state above 0)
/// and has to be searched, on a position within its range; the position nearest
/// in the order of searching counts first, and on it the event object with the
/// least number. It finds nothing exactly if there is no such event object.
pub proof fn law_search_finds_the_first(e: &Engine, n: int)
    requires
        0 <= n,
    ensures
        first_found(e, n) is None <==> forall|i: int, k: int|
            0 <= i < n && e.globals.scene_start() <= k < e.globals.scene_end() ==> !#[trigger] found_at(e, i, k),
        first_found(e, n) matches Some(k) ==> exists|i: int|
            {
                &&& 0 <= i < n
                &&& e.globals.scene_start() <= k < e.globals.scene_end()
                &&& #[trigger] found_at(e, i, k)
                &&& forall|j: int, m: int|
                    0 <= j < i && e.globals.scene_start() <= m < e.globals.scene_end() ==> !#[trigger] found_at(e, j, m)
                &&& forall|m: int| e.globals.scene_start() <= m < k ==> !#[trigger] found_at(e, i, m)
            },
    decreases n,
{
    if n > 0 {
        law_search_finds_the_first(e, n - 1);
        lemma_first_at(e, n - 1, e.globals.scene_start(), e.globals.scene_end());
        if first_found(e, n - 1) is None && first_found(e, n) is Some {
            assert(found_at(e, n - 1, first_found(e, n)->0));
        }
    }
}

proof fn lemma_first_at(e: &Engine, i: int, from: int, to: int)
    ensures
        first_found_at(e, i, from, to) is None <==> forall|k: int| from <= k < to ==> !#[trigger] found_at(e, i, k),
        first_found_at(e, i, from, to) matches Some(k) ==> {
            &&& from <= k < to
            &&& found_at(e, i, k)
            &&& forall|m: int| from <= m < k ==> !#[trigger] found_at(e, i, m)
        },
    decreases to - from,
{
    if to > from {
        lemma_first_at(e, i, from, to - 1);
    }
}

/// What can be found: by its state, its trigger mode and how far in front of
/// the party it is. The least mode asks for the first two positions, the next
/// for eight, and the third for all.
pub proof fn law_found_within_range(e: &Engine, i: int, k: int)
    requires
        0 <= i < 13,
    ensures
        ({
            let o = e.globals.game.event_objects@[k];
            found_at(e, i, k) <==> {
                &&& o.state > 0
                &&& (o.trigger_mode == 1 && i < 2 || o.trigger_mode == 2 && i < 8 || o.trigger_mode == 3)
                &&& search::search_tile(search::searched(e.player_pos(), e.globals.party_direction as int, i))
                    == search::search_tile((o.x as i64, o.y as i64))
            }
        }),
{
}

/// An event object that is found and can turn looks back at the party, which
/// stands facing it; its script is the one to run.
pub proof fn law_found_objects_look_back(before: Engine, after: Engine, r: Option<Found>)
    requires
        before.scene_in_tables(),
        Engine::search_does(&before, &after, r),
        before.globals.party_direction < 4,
    ensures
        r is Some <==> first_found(&before, 13) is Some,
        r matches Some(f) ==> {
            let o = before.globals.game.event_objects@[f.at as int];
            let n = after.globals.game.event_objects@[f.at as int];
            &&& f.at == first_found(&before, 13)->0
            &&& f.script == o.trigger_script
            &&& f.show <==> o.current_frame_num < 4 * o.sprite_frames
            &&& f.show ==> {
                &&& n.current_frame_num == 0
                &&& n.direction < 4
                &&& walk::dir_offset(n.direction as int).0 == -walk::dir_offset(before.globals.party_direction as int).0
                &&& walk::dir_offset(n.direction as int).1 == -walk::dir_offset(before.globals.party_direction as int).1
                &&& forall|i: int|
                    0 <= i <= before.globals.max_party_member_index && i < 5 ==> (#[trigger] after.globals.party@[i]).frame == 3
                        * before.globals.party_direction
                &&& n == (EventObject { current_frame_num: 0, direction: n.direction, ..o })
                &&& forall|k: int|
                    0 <= k < before.globals.game.event_objects@.len() && k != f.at ==> #[trigger] after.globals.game.event_objects@[k]
                        == before.globals.game.event_objects@[k]
                &&& forall|i: int|
                    0 <= i < 5 ==> (#[trigger] after.globals.party@[i]) == (Party {
                        frame: after.globals.party@[i].frame,
                        ..before.globals.party@[i]
                    })
                &&& after.globals.viewport == before.globals.viewport && after.globals.inventory == before.globals.inventory
                    && after.globals.trail == before.globals.trail
            }
            &&& !f.show ==> after == before
        },
        r is None ==> after == before,
{
    law_search_finds_the_first(&before, 13);
}

/// Taking one of an item away leaves one less of it, and as many of all others.
pub proof fn law_one_is_taken(inv: Seq<Inventory>, object: u16)
    requires
        object != 0,
        inventory::holds(inv, object),
        inv[inventory::slot_of(inv, object, 0)].amount > 0,
    ensures
        one_taken(inv, object)[inventory::slot_of(inv, object, 0)].amount == inv[inventory::slot_of(inv, object, 0)].amount - 1,
        one_taken(inv, object)[inventory::slot_of(inv, object, 0)].item == object,
        forall|i: int|
            0 <= i < inv.len() && i != inventory::slot_of(inv, object, 0) ==> #[trigger] one_taken(inv, object)[i] == inv[i],
{
    inventory::law_slot_is_first(inv, object, 0);
}

/// The cursor moves back by one exactly when the last of the item under it is
/// gone and nothing stands behind it.
pub proof fn law_cursor_leaves_the_gone_item(g: &Globals, object: u16)
    ensures
        cursor_after_taking(g, object) == g.cur_inv_menu_item || cursor_after_taking(g, object) == g.cur_inv_menu_item - 1,
        cursor_after_taking(g, object) != g.cur_inv_menu_item ==> {
            let at = g.cur_inv_menu_item as int;
            &&& 0 <= at < 255
            &&& g.inventory@[at].item == object
            &&& g.inventory@[at].amount == 1
            &&& g.inventory@[at + 1].amount == 0
        },
        inventory::holds(g.inventory@, object) && object != 0 && g.cur_inv_menu_item == inventory::slot_of(
            g.inventory@,
            object,
            0,
        ) && g.cur_inv_menu_item < 255 && g.inventory@[g.cur_inv_menu_item as int].amount == 1 && g.inventory@[g.cur_inv_menu_item
            + 1].amount == 0 ==> cursor_after_taking(g, object) == g.cur_inv_menu_item - 1,
{
    inventory::law_slot_is_first(g.inventory@, object, 0);
}

/// A wait that begins ends after its time, or never for 0; where waits are
/// answered at once none begins.
pub proof fn law_waits_end_in_time(e: Engine, timeout: u16, now: u64, any: bool)
    requires
        now <= u64::MAX - 0xffff,
    ensures
        e.ui.auto_confirm <==> e.wait_begun(timeout, now, any) is None,
        e.wait_begun(timeout, now, any) matches Some(w) ==> {
            &&& w.any == any
            &&& w.deadline is None <==> timeout == 0
            &&& w.deadline matches Some(t) ==> t - now == timeout
        },
{
}

} // verus!
