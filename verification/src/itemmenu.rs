//! The menu in which an item of the inventory is chosen.

use vstd::prelude::*;

use crate::agent_battle;
use crate::agent_battle::MenuEntry;
use crate::draw;
use crate::draw::{Draw, MenuStep, MenuTurn, NumberColor, TextColor, UiSprite, NO_CHOICE};
use crate::engine::Engine;
use crate::global::{Globals, ITEMFLAG_USABLE};
use crate::input::{
    Keyboard, KEY_DOWN, KEY_END, KEY_HOME, KEY_LEFT, KEY_MENU, KEY_PGDN, KEY_PGUP, KEY_RIGHT, KEY_SEARCH, KEY_UP,
};
use crate::inventory;
use crate::records::{GameObject, Inventory};
use crate::text;
use crate::ui::{AgentMenu, AgentMenuItem};

verus! {

/// An item menu: how many items it lists, and which can be chosen.
#[derive(Clone, Copy, Debug, PartialEq, Eq, Structural)]
pub struct ItemMenuCtx {
    pub num_inventory: i32,
    pub item_flags: u16,
}

/// An item menu that is open, and where its selection was.
#[derive(Clone, Copy, Debug, PartialEq, Eq, Structural)]
pub struct ItemMenu {
    pub ctx: ItemMenuCtx,
    pub prev_index: i32,
    /// Somebody is told when another item is selected.
    pub tells: bool,
}

/// The item in slot `i` is an object.
pub open spec fn slot_known(g: &Globals, i: int) -> bool {
    g.inventory@[i].item < g.game.objects@.len()
}

/// The slots that a turn of a menu of `count` items shows or looks at hold
/// objects: those of the whole list, those of the page of the selection, and
/// the selected one where it is confirmed.
pub open spec fn slots_known(g: &Globals, keys: u32, count: int) -> bool {
    let cur = selected_next(g, keys, count);
    let first = page_start(cur);
    &&& forall|i: int| 0 <= i < items_before_gap(g.inventory@, count) ==> #[trigger] slot_known(g, i)
    &&& forall|i: int| first <= i < first + shown(g.inventory@, first, 21) ==> #[trigger] slot_known(g, i)
    &&& keys & KEY_SEARCH != 0 ==> slot_known(g, cur)
}

/// The item that is selected when the keys have moved the selection.
pub open spec fn selected_next(g: &Globals, keys: u32, count: int) -> int {
    let cur = g.cur_inv_menu_item as int;
    draw::moved(cur, item_delta(keys, cur, count), count)
}

/// What the party wears joins the list of a menu.
pub open spec fn lists_worn(g: &Globals, item_flags: u16) -> bool {
    item_flags & ITEMFLAG_USABLE != 0 && !g.in_battle
}

/// The members of the party play known roles, and what they wear are objects.
pub open spec fn worn_known(g: &Globals) -> bool {
    &&& g.max_party_member_index < 5
    &&& forall|i: int| 0 <= i <= g.max_party_member_index ==> (#[trigger] g.party@[i]).player_role < 6
    &&& forall|n: int| 0 <= n < 6 * (g.max_party_member_index + 1) ==> #[trigger] worn(g, n) < g.game.objects@.len()
}

/// How many of the first `n` slots are in front of the first empty one.
pub open spec fn items_before_gap(inv: Seq<Inventory>, n: int) -> int
    decreases n,
{
    if n <= 0 {
        0
    } else {
        let c = items_before_gap(inv, n - 1);
        if c == n - 1 && inv[n - 1].item != 0 {
            n
        } else {
            c
        }
    }
}

/// The `n`-th piece of equipment of the party, member by member.
pub open spec fn worn(g: &Globals, n: int) -> u16 {
    g.game.player_roles.equipment@[n % 6]@[g.party@[n / 6].player_role as int]
}

/// An object can be used.
pub open spec fn usable(g: &Globals, object: u16) -> bool {
    g.game.objects@[object as int].data@[6] & ITEMFLAG_USABLE != 0
}

/// The list behind the first `n` pieces of equipment: what can be used joins,
/// as far as there is room.
pub open spec fn with_worn(g: &Globals, inv: Seq<Inventory>, count: int, n: int) -> (Seq<Inventory>, int)
    decreases n,
{
    if n <= 0 {
        (inv, count)
    } else {
        let (list, c) = with_worn(g, inv, count, n - 1);
        if usable(g, worn(g, n - 1)) && c < 256 {
            (list.update(c, Inventory { item: worn(g, n - 1), amount: 0, amount_in_use: 0xffff }), c + 1)
        } else {
            (list, c)
        }
    }
}

/// The list of an item menu, and how many items it has: the inventory without
/// gaps and, outside battles, usable equipment.
pub open spec fn menu_list(g: &Globals, item_flags: u16) -> (Seq<Inventory>, int) {
    let inv = inventory::compressed(g.inventory@);
    let count = items_before_gap(inv, 256);
    if lists_worn(g, item_flags) {
        with_worn(g, inv, count, 6 * (g.max_party_member_index + 1))
    } else {
        (inv, count)
    }
}

/// An item can be chosen.
pub open spec fn can_choose(inv: Seq<Inventory>, objects: Seq<GameObject>, flags: u16, i: int) -> bool {
    objects[inv[i].item as int].data@[6] & flags != 0 && inv[i].amount as i16 > inv[i].amount_in_use as i16
}

/// The color of an item.
pub open spec fn item_color(inv: Seq<Inventory>, objects: Seq<GameObject>, flags: u16, cur: int, i: int) -> TextColor {
    if !can_choose(inv, objects, flags, i) {
        if i == cur {
            TextColor::SelectedInactive
        } else {
            TextColor::Inactive
        }
    } else if inv[i].amount == 0 {
        TextColor::Equipped
    } else if i == cur {
        TextColor::Selected
    } else {
        TextColor::Normal
    }
}

/// The first item of the page that shows item `cur`.
pub open spec fn page_start(cur: int) -> int {
    let i = cur / 3 * 3 - 12;
    if i < 0 {
        0
    } else {
        i
    }
}

/// How many of `n` places of a page show an item: up to the first empty slot.
pub open spec fn shown(inv: Seq<Inventory>, first: int, n: int) -> int
    decreases n,
{
    if n <= 0 {
        0
    } else {
        let c = shown(inv, first, n - 1);
        if c == n - 1 && first + n - 1 < 256 && inv[first + n - 1].item != 0 {
            n
        } else {
            c
        }
    }
}

/// What is drawn for place `t` of a page.
pub open spec fn place_draws(
    inv: Seq<Inventory>,
    objects: Seq<GameObject>,
    flags: u16,
    cur: int,
    first: int,
    t: int,
) -> Seq<Draw> {
    let i = first + t;
    let x = 100 * (t % 3);
    let y = 18 * (t / 3);
    let spare = inv[i].amount as i16 - inv[i].amount_in_use as i16;
    let d = Seq::empty().push(
        Draw::Word {
            word: inv[i].item,
            x: (15 + x) as i32,
            y: (12 + y) as i32,
            color: item_color(inv, objects, flags, cur, i),
            shadow: true,
            update: false,
        },
    );
    let d = if i == cur {
        d.push(Draw::SpriteShadow { sprite: UiSprite::ItemBox, x: 5, y: 145 }).push(
            Draw::Sprite { sprite: UiSprite::ItemBox, x: 0, y: 140 },
        ).push(Draw::ItemImage { bitmap: objects[inv[i].item as int].data@[0], x: 8, y: 147 })
    } else {
        d
    };
    if spare > 1 {
        d.push(
            Draw::Number {
                value: spare as u32,
                length: 2,
                x: (96 + x) as i32,
                y: (17 + y) as i32,
                tint: NumberColor::Cyan,
            },
        )
    } else {
        d
    }
}

/// What is drawn for the first `n` places of a page.
pub open spec fn page_draws(
    inv: Seq<Inventory>,
    objects: Seq<GameObject>,
    flags: u16,
    cur: int,
    first: int,
    n: int,
) -> Seq<Draw>
    decreases n,
{
    if n <= 0 {
        Seq::empty()
    } else {
        page_draws(inv, objects, flags, cur, first, n - 1) + place_draws(inv, objects, flags, cur, first, n - 1)
    }
}

/// Where the cursor is drawn.
pub open spec fn cursor_at(cur: int, first: int, count: int) -> Draw {
    let t = cur - first;
    if 0 <= t < count {
        Draw::Sprite { sprite: UiSprite::Cursor, x: (40 + 100 * (t % 3)) as i32, y: (22 + 18 * (t / 3)) as i32 }
    } else {
        Draw::Sprite { sprite: UiSprite::Cursor, x: 40, y: 22 }
    }
}

/// How far the keys move the selection.
pub open spec fn item_delta(keys: u32, cur: int, count: int) -> int {
    if keys & KEY_UP != 0 {
        -3
    } else if keys & KEY_DOWN != 0 {
        3
    } else if keys & KEY_LEFT != 0 {
        -1
    } else if keys & KEY_RIGHT != 0 {
        1
    } else if keys & KEY_PGUP != 0 {
        -21
    } else if keys & KEY_PGDN != 0 {
        21
    } else if keys & KEY_HOME != 0 {
        -cur
    } else if keys & KEY_END != 0 {
        count - cur - 1
    } else {
        0
    }
}

/// The keys leave the menu: the menu key, and none that moves the selection.
pub open spec fn keys_leave(keys: u32) -> bool {
    &&& keys & KEY_UP == 0 && keys & KEY_DOWN == 0 && keys & KEY_LEFT == 0 && keys & KEY_RIGHT == 0
    &&& keys & KEY_PGUP == 0 && keys & KEY_PGDN == 0 && keys & KEY_HOME == 0 && keys & KEY_END == 0
    &&& keys & KEY_MENU != 0
}

/// The line and column where the selected item is drawn when it is confirmed.
pub open spec fn confirmed_draws(object: u16, cur: int, cursor: Draw) -> Seq<Draw> {
    let line = if cur < 12 { cur / 3 } else { 4 };
    Seq::empty().push(
        Draw::Word {
            word: object,
            x: (15 + 100 * (cur % 3)) as i32,
            y: (12 + 18 * line) as i32,
            color: TextColor::Confirmed,
            shadow: false,
            update: false,
        },
    ).push(cursor)
}

/// The item is confirmed.
pub open spec fn confirms(inv: Seq<Inventory>, objects: Seq<GameObject>, flags: u16, keys: u32, cur: int) -> bool {
    keys & KEY_SEARCH != 0 && can_choose(inv, objects, flags, cur)
}

/// Everything that a turn draws.
pub open spec fn turn_draws(inv: Seq<Inventory>, objects: Seq<GameObject>, flags: u16, keys: u32, cur: int) -> Seq<Draw> {
    let first = page_start(cur);
    let count = shown(inv, first, 21);
    let cursor = cursor_at(cur, first, count);
    let d = (Seq::empty().push(Draw::BoxWithShadow { x: 2, y: 0, rows: 6, columns: 17 }) + page_draws(
        inv,
        objects,
        flags,
        cur,
        first,
        count,
    )).push(cursor);
    if confirms(inv, objects, flags, keys, cur) && inv[cur].amount as i16 > 0 {
        d + confirmed_draws(inv[cur].item, cur, cursor)
    } else {
        d
    }
}

/// The label of slot `i`: the word and the amount.
pub open spec fn item_label(e: &Engine, i: int) -> Seq<char> {
    let slot = e.globals.inventory@[i];
    e.texts.word_text(slot.item as int) + " x"@ + text::decimal(slot.amount as nat)
}

/// Slot `i` as an entry of a menu.
pub open spec fn item_entry(e: &Engine, flags: u16, i: int) -> MenuEntry {
    MenuEntry {
        value: e.globals.inventory@[i].item as int,
        label: item_label(e, i),
        enabled: can_choose(e.globals.inventory@, e.globals.game.objects@, flags, i),
    }
}

/// The first `n` slots as entries of a menu.
pub open spec fn item_entries(e: &Engine, flags: u16, n: int) -> Seq<MenuEntry> {
    Seq::new(n as nat, |i: int| item_entry(e, flags, i))
}

/// The menu shows the items.
pub open spec fn shows_items(e: &Engine, menu: Option<AgentMenu>, cur: int, flags: u16, n: int) -> bool {
    menu matches Some(m) && m.kind@ == "item"@ && m.index == cur && agent_battle::entries(m.items@) == item_entries(e, flags, n)
}

impl Engine {
    /// Open an item menu: the list is put together in the inventory.
    pub fn item_select_menu_init(&mut self, item_flags: u16) -> (ctx: ItemMenuCtx)
        requires
            lists_worn(&old(self).globals, item_flags) ==> worn_known(&old(self).globals),
        ensures
            final(self).globals.inventory@ == menu_list(&old(self).globals, item_flags).0,
            ctx.num_inventory == menu_list(&old(self).globals, item_flags).1,
            ctx.item_flags == item_flags,
            0 <= ctx.num_inventory <= 256,
            *final(self) == (Engine {
                globals: Globals { inventory: final(self).globals.inventory, ..old(self).globals },
                ..*old(self)
            }),
    {
        self.globals.compress_inventory();
        let mut list: [Inventory; 256] = self.globals.inventory;
        let ghost inv = list@;
        let mut num: usize = 0;
        while num < 256 && list[num].item != 0
            invariant
                num <= 256,
                list@ == inv,
                items_before_gap(inv, num as int) == num,
            decreases 256 - num,
        {
            num = num + 1;
        }
        proof {
            lemma_gap(inv, num as int, 256);
        }
        if item_flags & ITEMFLAG_USABLE != 0 && !self.globals.in_battle {
            let last: usize = 6 * (self.globals.max_party_member_index as usize + 1);
            let ghost g = self.globals;
            let ghost count = num as int;
            assert forall|n: int| #[trigger] worn(&g, n) == worn(&old(self).globals, n) by {}
            for n in 0..last
                invariant
                    g == self.globals,
                    worn_known(&g),
                    last == 6 * (g.max_party_member_index + 1),
                    last <= 30,
                    num <= 256,
                    (list@, num as int) == with_worn(&g, inv, count, n as int),
            {
                assert(n / 6 <= g.max_party_member_index);
                assert(g.party@[n as int / 6].player_role < 6);
                let role: usize = self.globals.party[n / 6].player_role as usize;
                let equip: u16 = self.globals.game.player_roles.equipment[n % 6][role];
                assert(worn(&g, n as int) == equip);
                if self.globals.game.objects[equip as usize].item_flags() & ITEMFLAG_USABLE != 0 && num < 256 {
                    list[num] = Inventory { item: equip, amount: 0, amount_in_use: 0xffff };
                    num = num + 1;
                }
            }
            proof {
                lemma_with_worn_same(&old(self).globals, &g, inv, count, last as int);
            }
        }
        self.globals.inventory = list;
        ItemMenuCtx { num_inventory: num as i32, item_flags }
    }

    fn place(&self, flags: u16, cur: i32, first: usize, t: usize) -> (r: Vec<Draw>)
        requires
            slot_known(&self.globals, first + t),
            t < 21,
            first + t < 256,
        ensures
            r@ == place_draws(
                self.globals.inventory@,
                self.globals.game.objects@,
                flags,
                cur as int,
                first as int,
                t as int,
            ),
    {
        let i: usize = first + t;
        let slot: Inventory = self.globals.inventory[i];
        let object: GameObject = self.globals.game.objects[slot.item as usize];
        let x: i32 = 100 * (t % 3) as i32;
        let y: i32 = 18 * (t / 3) as i32;
        let amount: i16 = slot.amount as i16;
        let in_use: i16 = slot.amount_in_use as i16;
        let ok: bool = object.item_flags() & flags != 0 && amount > in_use;
        let selected: bool = i as i32 == cur;
        let color: TextColor = if !ok {
            if selected {
                TextColor::SelectedInactive
            } else {
                TextColor::Inactive
            }
        } else if slot.amount == 0 {
            TextColor::Equipped
        } else if selected {
            TextColor::Selected
        } else {
            TextColor::Normal
        };
        let mut r: Vec<Draw> = Vec::new();
        r.push(Draw::Word { word: slot.item, x: 15 + x, y: 12 + y, color, shadow: true, update: false });
        if selected {
            r.push(Draw::SpriteShadow { sprite: UiSprite::ItemBox, x: 5, y: 145 });
            r.push(Draw::Sprite { sprite: UiSprite::ItemBox, x: 0, y: 140 });
            r.push(Draw::ItemImage { bitmap: object.item_bitmap(), x: 8, y: 147 });
        }
        let spare: i32 = amount as i32 - in_use as i32;
        if spare > 1 {
            r.push(Draw::Number { value: spare as u32, length: 2, x: 96 + x, y: 17 + y, tint: NumberColor::Cyan });
        }
        assert(r@ =~= place_draws(
            self.globals.inventory@,
            self.globals.game.objects@,
            flags,
            cur as int,
            first as int,
            t as int,
        ));
        r
    }

    fn item_page(&self, flags: u16, cur: i32, first: usize) -> (r: (Vec<Draw>, usize))
        requires
            first <= 256,
            forall|i: int|
                first <= i < first + shown(self.globals.inventory@, first as int, 21) ==> #[trigger] slot_known(
                    &self.globals,
                    i,
                ),
        ensures
            r.1 == shown(self.globals.inventory@, first as int, 21),
            r.1 <= 21,
            r.0@ == page_draws(
                self.globals.inventory@,
                self.globals.game.objects@,
                flags,
                cur as int,
                first as int,
                r.1 as int,
            ),
    {
        let mut r: Vec<Draw> = Vec::new();
        assert(r@ =~= Seq::<Draw>::empty());
        let mut t: usize = 0;
        while t < 21 && first + t < 256 && self.globals.inventory[first + t].item != 0
            invariant
                first <= 256,
                forall|i: int|
                    first <= i < first + shown(self.globals.inventory@, first as int, 21) ==> #[trigger] slot_known(
                        &self.globals,
                        i,
                    ),
                t <= 21,
                t == shown(self.globals.inventory@, first as int, t as int),
                r@ == page_draws(
                    self.globals.inventory@,
                    self.globals.game.objects@,
                    flags,
                    cur as int,
                    first as int,
                    t as int,
                ),
            decreases 21 - t,
        {
            proof {
                lemma_shown_grows(self.globals.inventory@, first as int, t + 1, 21);
            }
            let place: Vec<Draw> = self.place(flags, cur, first, t);
            draw::push_all(&mut r, &place);
            t = t + 1;
        }
        proof {
            lemma_shown(self.globals.inventory@, first as int, t as int, 21);
        }
        (r, t)
    }

    fn item_menu(&self, flags: u16, cur: i32, num: i32) -> (menu: AgentMenu)
        requires
            0 <= cur,
            0 <= num <= 256,
            forall|i: int|
                0 <= i < items_before_gap(self.globals.inventory@, num as int) ==> #[trigger] slot_known(&self.globals, i),
        ensures
            shows_items(self, Some(menu), cur as int, flags, items_before_gap(self.globals.inventory@, num as int)),
    {
        let mut items: Vec<AgentMenuItem> = Vec::new();
        let mut i: usize = 0;
        assert(agent_battle::entries(items@) =~= item_entries(self, flags, 0));
        while i < num as usize && self.globals.inventory[i].item != 0
            invariant
                0 <= num <= 256,
                forall|k: int|
                    0 <= k < items_before_gap(self.globals.inventory@, num as int) ==> #[trigger] slot_known(
                        &self.globals,
                        k,
                    ),
                i <= num,
                i == items_before_gap(self.globals.inventory@, i as int),
                agent_battle::entries(items@) == item_entries(self, flags, i as int),
            decreases num - i,
        {
            let slot: Inventory = self.globals.inventory[i];
            proof {
                lemma_gap_grows(self.globals.inventory@, i + 1, num as int);
            }
            assert(slot_known(&self.globals, i as int));
            let mut label: String = self.texts.word(slot.item as usize);
            label.push_str(" x");
            text::push_decimal(&mut label, slot.amount as u64);
            assert(label@ =~= item_label(self, i as int));
            let enabled: bool = self.globals.game.objects[slot.item as usize].item_flags() & flags != 0 && slot.amount as i16
                > slot.amount_in_use as i16;
            let ghost before = items@;
            items.push(AgentMenuItem { value: slot.item, label, enabled });
            assert(agent_battle::entries(items@) =~= agent_battle::entries(before).push(items@.last()@));
            assert(agent_battle::entries(items@) =~= item_entries(self, flags, i + 1));
            i = i + 1;
        }
        proof {
            lemma_gap(self.globals.inventory@, i as int, num as int);
        }
        let mut kind: String = String::new();
        kind.push_str("item");
        assert(kind@ =~= "item"@);
        AgentMenu { kind, index: cur as usize, items }
    }

    /// A turn of an item menu: the keys move the selection, leave the menu or
    /// confirm, and the menu is drawn.
    pub fn item_select_menu_update(&mut self, ctx: &ItemMenuCtx) -> (turn: MenuTurn)
        requires
            old(self).wf(),
            0 <= ctx.num_inventory <= 256,
            keys_leave(old(self).input@.key_press) || slots_known(
                &old(self).globals,
                old(self).input@.key_press,
                ctx.num_inventory as int,
            ),
        ensures
            final(self).wf(),
            ({
                let keys = old(self).input@.key_press;
                let g = old(self).globals;
                let inv = g.inventory@;
                let objects = g.game.objects@;
                let flags = ctx.item_flags;
                let count = ctx.num_inventory as int;
                let cur = selected_next(&g, keys, count);
                if keys_leave(keys) {
                    &&& turn.choice == 0
                    &&& turn.draws@ == Seq::<Draw>::empty()
                    &&& final(self).ui.agent_menu is None
                    &&& final(self).globals == g
                } else {
                    &&& final(self).globals == (Globals { cur_inv_menu_item: cur as i32, ..g })
                    &&& turn.draws@ == turn_draws(inv, objects, flags, keys, cur)
                    &&& turn.choice == if confirms(inv, objects, flags, keys, cur) { inv[cur].item } else { NO_CHOICE }
                    &&& if confirms(inv, objects, flags, keys, cur) {
                        final(self).ui.agent_menu is None
                    } else {
                        shows_items(old(self), final(self).ui.agent_menu, cur, flags, items_before_gap(inv, count))
                    }
                }
            }),
            draw::only_menu_changed(old(self).ui, final(self).ui),
            *final(self) == (Engine { globals: final(self).globals, ui: final(self).ui, ..*old(self) }),
    {
        let cur: i32 = match self.item_selection(ctx.num_inventory) {
            Some(cur) => cur,
            None => {
                self.ui.agent_menu = None;
                return MenuTurn { choice: 0, draws: Vec::new() };
            },
        };
        let flags: u16 = ctx.item_flags;
        let menu: AgentMenu = self.item_menu(flags, cur, ctx.num_inventory);
        let (turn, confirmed): (MenuTurn, bool) = self.item_turn(flags, cur);
        self.globals.cur_inv_menu_item = cur;
        self.ui.agent_menu = if confirmed {
            None
        } else {
            Some(menu)
        };
        turn
    }

    /// Where the keys move the selection, unless they leave the menu.
    fn item_selection(&self, num: i32) -> (r: Option<i32>)
        requires
            0 <= num <= 256,
        ensures
            ({
                let keys = self.input@.key_press;
                if keys_leave(keys) {
                    r is None
                } else {
                    r matches Some(c) && c == selected_next(&self.globals, keys, num as int) && 0 <= c < 256
                }
            }),
    {
        let cur: i64 = self.globals.cur_inv_menu_item as i64;
        let delta: i64 = if self.input.pressed(KEY_UP) {
            -3
        } else if self.input.pressed(KEY_DOWN) {
            3
        } else if self.input.pressed(KEY_LEFT) {
            -1
        } else if self.input.pressed(KEY_RIGHT) {
            1
        } else if self.input.pressed(KEY_PGUP) {
            -21
        } else if self.input.pressed(KEY_PGDN) {
            21
        } else if self.input.pressed(KEY_HOME) {
            -cur
        } else if self.input.pressed(KEY_END) {
            num as i64 - cur - 1
        } else if self.input.pressed(KEY_MENU) {
            return None;
        } else {
            0
        };
        if cur + delta < 0 {
            Some(0)
        } else if cur + delta >= num as i64 {
            if num > 0 {
                Some(num - 1)
            } else {
                Some(0)
            }
        } else {
            Some((cur + delta) as i32)
        }
    }

    fn item_turn(&self, flags: u16, cur: i32) -> (r: (MenuTurn, bool))
        requires
            0 <= cur < 256,
            forall|i: int|
                page_start(cur as int) <= i < page_start(cur as int) + shown(
                    self.globals.inventory@,
                    page_start(cur as int),
                    21,
                ) ==> #[trigger] slot_known(&self.globals, i),
            self.input@.key_press & KEY_SEARCH != 0 ==> slot_known(&self.globals, cur as int),
        ensures
            ({
                let keys = self.input@.key_press;
                let inv = self.globals.inventory@;
                let objects = self.globals.game.objects@;
                &&& r.0.draws@ == turn_draws(inv, objects, flags, keys, cur as int)
                &&& r.1 == confirms(inv, objects, flags, keys, cur as int)
                &&& r.0.choice == if r.1 { inv[cur as int].item } else { NO_CHOICE }
            }),
    {
        let start: i32 = cur / 3 * 3 - 12;
        let first: usize = if start < 0 {
            0
        } else {
            start as usize
        };
        let mut draws: Vec<Draw> = Vec::new();
        draws.push(Draw::BoxWithShadow { x: 2, y: 0, rows: 6, columns: 17 });
        assert(draws@ =~= Seq::empty().push(Draw::BoxWithShadow { x: 2, y: 0, rows: 6, columns: 17 }));
        let (page, count): (Vec<Draw>, usize) = self.item_page(flags, cur, first);
        draw::push_all(&mut draws, &page);
        let t: i32 = cur - first as i32;
        let cursor: Draw = if 0 <= t && t < count as i32 {
            Draw::Sprite { sprite: UiSprite::Cursor, x: 40 + 100 * (t % 3), y: 22 + 18 * (t / 3) }
        } else {
            Draw::Sprite { sprite: UiSprite::Cursor, x: 40, y: 22 }
        };
        draws.push(cursor);
        let slot: Inventory = self.globals.inventory[cur as usize];
        let amount: i16 = slot.amount as i16;
        let confirmed: bool = self.input.pressed(KEY_SEARCH) && self.globals.game.objects[slot.item as usize].item_flags()
            & flags != 0 && amount > slot.amount_in_use as i16;
        if confirmed && amount > 0 {
            let line: i32 = if cur < 12 {
                cur / 3
            } else {
                4
            };
            let ghost before = draws@;
            draws.push(
                Draw::Word {
                    word: slot.item,
                    x: 15 + 100 * (cur % 3),
                    y: 12 + 18 * line,
                    color: TextColor::Confirmed,
                    shadow: false,
                    update: false,
                },
            );
            draws.push(cursor);
            assert(draws@ =~= before + confirmed_draws(slot.item, cur as int, cursor));
        }
        (
            MenuTurn {
                choice: if confirmed {
                    slot.item
                } else {
                    NO_CHOICE
                },
                draws,
            },
            confirmed,
        )
    }

    /// Open an item menu and forget the keys. Whoever wants to be told is told
    /// of the selected item at once.
    pub fn item_select_menu(&mut self, tells: bool, item_flags: u16) -> (r: (ItemMenu, Option<u16>))
        requires
            old(self).wf(),
            lists_worn(&old(self).globals, item_flags) ==> worn_known(&old(self).globals),
            tells ==> old(self).globals.cur_inv_menu_item < 256,
        ensures
            final(self).wf(),
            ({
                let cur = old(self).globals.cur_inv_menu_item;
                let (list, count) = menu_list(&old(self).globals, item_flags);
                &&& final(self).globals.inventory@ == list
                &&& r.0 == (ItemMenu {
                    ctx: ItemMenuCtx { num_inventory: count as i32, item_flags },
                    prev_index: cur,
                    tells,
                })
                &&& 0 <= count <= 256
                &&& r.1 == if tells { Some(list[if cur < 0 { 0 } else { cur as int }].item) } else { None }
            }),
            final(self).input@ == (Keyboard { key_press: 0, pending_dir: 4, ..old(self).input@ }),
            *final(self) == (Engine {
                globals: Globals { inventory: final(self).globals.inventory, ..old(self).globals },
                input: final(self).input,
                ..*old(self)
            }),
    {
        let ctx: ItemMenuCtx = self.item_select_menu_init(item_flags);
        self.input.clear_key_state();
        let cur: i32 = self.globals.cur_inv_menu_item;
        let told: Option<u16> = if tells {
            Some(
                self.globals.inventory[if cur < 0 {
                    0
                } else {
                    cur as usize
                }].item,
            )
        } else {
            None
        };
        (ItemMenu { ctx, prev_index: cur, tells }, told)
    }

    /// What to do when a turn has been shown: where waits are answered at once
    /// the menu is left, and otherwise the end of the frame is waited for.
    pub fn item_menu_shown(&self, choice: u16) -> (s: MenuStep)
        ensures
            s == if !self.ui.auto_confirm {
                MenuStep::Wait
            } else if choice != NO_CHOICE {
                MenuStep::Leave { choice }
            } else {
                MenuStep::Leave { choice: 0 }
            },
    {
        if !self.ui.auto_confirm {
            MenuStep::Wait
        } else if choice != NO_CHOICE {
            MenuStep::Leave { choice }
        } else {
            MenuStep::Leave { choice: 0 }
        }
    }

    /// How many milliseconds a menu waits before the keys are looked at again;
    /// none at the end of a frame, which a key or a wish to quit brings early.
    pub fn menu_waits(&self, now: u64, until: u64) -> (ms: Option<u64>)
        ensures
            ms == if now < until && self.input@.key_press == 0 && !self.quit_requested { Some(5u64) } else { None },
    {
        if now < until && self.input.key_press == 0 && !self.quit_requested {
            Some(5)
        } else {
            None
        }
    }

    /// What to do at the end of a frame.
    pub fn item_menu_next(&self, menu: &mut ItemMenu, choice: u16) -> (s: MenuStep)
        ensures
            ({
                let cur = self.globals.cur_inv_menu_item;
                let goes_on = !self.quit_requested && choice == NO_CHOICE;
                &&& s == if self.quit_requested {
                    MenuStep::Leave { choice: 0 }
                } else if choice != NO_CHOICE {
                    MenuStep::Leave { choice }
                } else if old(menu).prev_index != cur && old(menu).tells && 0 <= cur < 256 {
                    MenuStep::Changed { item: self.globals.inventory@[cur as int].item }
                } else {
                    MenuStep::Again
                }
                &&& *final(menu) == (ItemMenu { prev_index: if goes_on { cur } else { old(menu).prev_index }, ..*old(menu) })
            }),
    {
        if self.quit_requested {
            return MenuStep::Leave { choice: 0 };
        }
        if choice != NO_CHOICE {
            return MenuStep::Leave { choice };
        }
        let cur: i32 = self.globals.cur_inv_menu_item;
        let changed: bool = menu.prev_index != cur;
        menu.prev_index = cur;
        if changed && menu.tells && 0 <= cur && cur < 256 {
            return MenuStep::Changed { item: self.globals.inventory[cur as usize].item };
        }
        MenuStep::Again
    }
}

proof fn lemma_gap(inv: Seq<Inventory>, num: int, n: int)
    requires
        0 <= num <= n,
        items_before_gap(inv, num) == num,
        num == n || inv[num].item == 0,
    ensures
        items_before_gap(inv, n) == num,
    decreases n - num,
{
    if num < n {
        lemma_gap_below(inv, num, n);
    }
}

proof fn lemma_gap_below(inv: Seq<Inventory>, num: int, n: int)
    requires
        0 <= num < n,
        items_before_gap(inv, num) == num,
        inv[num].item == 0,
    ensures
        items_before_gap(inv, n) == num,
    decreases n - num,
{
    if n > num + 1 {
        lemma_gap_below(inv, num, n - 1);
    }
}

proof fn lemma_gap_grows(inv: Seq<Inventory>, m: int, n: int)
    requires
        0 <= m <= n,
    ensures
        items_before_gap(inv, m) <= items_before_gap(inv, n),
    decreases n - m,
{
    if m < n {
        lemma_gap_grows(inv, m, n - 1);
    }
}

proof fn lemma_shown(inv: Seq<Inventory>, first: int, t: int, n: int)
    requires
        0 <= t <= n,
        shown(inv, first, t) == t,
        t == n || first + t >= 256 || inv[first + t].item == 0,
    ensures
        shown(inv, first, n) == t,
    decreases n - t,
{
    if t < n {
        if n > t + 1 {
            lemma_shown_below(inv, first, t, n - 1);
        }
    }
}

proof fn lemma_shown_below(inv: Seq<Inventory>, first: int, t: int, n: int)
    requires
        0 <= t < n,
        shown(inv, first, t) == t,
        first + t >= 256 || inv[first + t].item == 0,
    ensures
        shown(inv, first, n) == t,
    decreases n - t,
{
    if n > t + 1 {
        lemma_shown_below(inv, first, t, n - 1);
    }
}

/// What the party wears does not depend on the inventory.
proof fn lemma_with_worn_same(a: &Globals, b: &Globals, inv: Seq<Inventory>, count: int, n: int)
    requires
        *b == (Globals { inventory: b.inventory, ..*a }),
    ensures
        with_worn(a, inv, count, n) == with_worn(b, inv, count, n),
    decreases n,
{
    if n > 0 {
        lemma_with_worn_same(a, b, inv, count, n - 1);
    }
}

/// The selected item is on the page that is shown, if the list reaches it
/// without a gap.
pub proof fn law_selection_is_shown(inv: Seq<Inventory>, cur: int)
    requires
        0 <= cur < 256,
        forall|i: int| 0 <= i <= cur ==> (#[trigger] inv[i]).item != 0,
    ensures
        page_start(cur) <= cur < page_start(cur) + shown(inv, page_start(cur), 21),
{
    let first = page_start(cur);
    lemma_all_shown(inv, first, cur - first + 1);
    lemma_shown_grows(inv, first, cur - first + 1, 21);
}

proof fn lemma_all_shown(inv: Seq<Inventory>, first: int, n: int)
    requires
        0 <= first,
        0 <= n,
        first + n <= 256,
        forall|i: int| first <= i < first + n ==> (#[trigger] inv[i]).item != 0,
    ensures
        shown(inv, first, n) == n,
    decreases n,
{
    if n > 0 {
        lemma_all_shown(inv, first, n - 1);
        assert(inv[first + n - 1].item != 0);
    }
}

proof fn lemma_shown_grows(inv: Seq<Inventory>, first: int, m: int, n: int)
    requires
        0 <= m <= n,
    ensures
        shown(inv, first, m) <= shown(inv, first, n),
    decreases n - m,
{
    if m < n {
        lemma_shown_grows(inv, first, m, n - 1);
    }
}

/// The items in front of the first empty slot: none of them is empty, and the
/// next is.
pub proof fn law_items_end_with_a_gap(inv: Seq<Inventory>, n: int)
    requires
        0 <= n,
    ensures
        0 <= items_before_gap(inv, n) <= n,
        forall|i: int| 0 <= i < items_before_gap(inv, n) ==> (#[trigger] inv[i]).item != 0,
        items_before_gap(inv, n) < n ==> inv[items_before_gap(inv, n)].item == 0,
    decreases n,
{
    if n > 0 {
        law_items_end_with_a_gap(inv, n - 1);
    }
}

/// The places of a page show items up to the first empty slot or the end of the
/// list.
pub proof fn law_page_shows_up_to_a_gap(inv: Seq<Inventory>, first: int, n: int)
    requires
        0 <= n,
        0 <= first,
    ensures
        0 <= shown(inv, first, n) <= n,
        shown(inv, first, n) > 0 ==> first + shown(inv, first, n) <= 256,
        forall|i: int| first <= i < first + shown(inv, first, n) ==> (#[trigger] inv[i]).item != 0,
        shown(inv, first, n) < n ==> first + shown(inv, first, n) >= 256 || inv[first + shown(inv, first, n)].item == 0,
    decreases n,
{
    if n > 0 {
        law_page_shows_up_to_a_gap(inv, first, n - 1);
    }
}

/// A page starts with a line; the selection is in its first five lines, and in
/// the fifth of them unless the page is the first.
pub proof fn law_selection_keeps_to_the_page(cur: int)
    requires
        0 <= cur,
    ensures
        page_start(cur) % 3 == 0,
        page_start(cur) >= 0,
        page_start(cur) == 0 ==> cur < 15,
        page_start(cur) > 0 ==> 12 <= cur - page_start(cur) < 15,
{
}

/// The arrow keys move the selection by a line or an item, the page keys by a
/// page of seven lines, and the others to the ends of the list; the first key
/// in this order counts.
pub proof fn law_item_keys_move(keys: u32, cur: int, count: int)
    ensures
        keys & KEY_UP != 0 ==> item_delta(keys, cur, count) == -3,
        keys & KEY_UP == 0 && keys & KEY_DOWN != 0 ==> item_delta(keys, cur, count) == 3,
        keys & KEY_UP == 0 && keys & KEY_DOWN == 0 && keys & KEY_LEFT != 0 ==> item_delta(keys, cur, count) == -1,
        keys & KEY_UP == 0 && keys & KEY_DOWN == 0 && keys & KEY_LEFT == 0 && keys & KEY_RIGHT != 0 ==> item_delta(keys, cur, count) == 1,
        keys & KEY_UP == 0 && keys & KEY_DOWN == 0 && keys & KEY_LEFT == 0 && keys & KEY_RIGHT == 0 && keys & KEY_PGUP != 0 ==> item_delta(keys, cur, count) == -21,
        keys & KEY_UP == 0 && keys & KEY_DOWN == 0 && keys & KEY_LEFT == 0 && keys & KEY_RIGHT == 0 && keys & KEY_PGUP == 0 && keys & KEY_PGDN != 0 ==> item_delta(keys, cur, count) == 21,
        keys & KEY_UP == 0 && keys & KEY_DOWN == 0 && keys & KEY_LEFT == 0 && keys & KEY_RIGHT == 0 && keys & KEY_PGUP == 0 && keys & KEY_PGDN == 0 && keys & KEY_HOME != 0 ==> cur + item_delta(keys, cur, count) == 0,
        keys & KEY_UP == 0 && keys & KEY_DOWN == 0 && keys & KEY_LEFT == 0 && keys & KEY_RIGHT == 0 && keys & KEY_PGUP == 0 && keys & KEY_PGDN == 0 && keys & KEY_HOME == 0 && keys & KEY_END != 0 ==> cur + item_delta(keys, cur, count) + 1 == count,
        keys & KEY_UP == 0 && keys & KEY_DOWN == 0 && keys & KEY_LEFT == 0 && keys & KEY_RIGHT == 0 && keys & KEY_PGUP == 0 && keys & KEY_PGDN == 0 && keys & KEY_HOME == 0 && keys & KEY_END == 0 ==> item_delta(keys, cur, count) == 0,
{
}

/// An item can be chosen if it has one of the properties asked for and some of
/// it are not in use; it is gray otherwise.
pub proof fn law_items_can_be_chosen(inv: Seq<Inventory>, objects: Seq<GameObject>, flags: u16, cur: int, i: int)
    requires
        inv[i].amount < 0x8000,
    ensures
        inv[i].amount_in_use < 0x8000 ==> (can_choose(inv, objects, flags, i) <==> objects[inv[i].item as int].data@[6] & flags
            != 0 && inv[i].amount > inv[i].amount_in_use),
        inv[i].amount_in_use == 0xffff ==> (can_choose(inv, objects, flags, i) <==> objects[inv[i].item as int].data@[6] & flags
            != 0),
        can_choose(inv, objects, flags, i) <==> {
            let c = item_color(inv, objects, flags, cur, i);
            c == TextColor::Equipped || c == TextColor::Selected || c == TextColor::Normal
        },
        item_color(inv, objects, flags, cur, i) == TextColor::Selected || item_color(inv, objects, flags, cur, i)
            == TextColor::SelectedInactive ==> i == cur,
        item_color(inv, objects, flags, cur, i) == TextColor::Equipped <==> can_choose(inv, objects, flags, i) && inv[i].amount
            == 0,
        i == cur ==> item_color(inv, objects, flags, cur, i) != TextColor::Normal && item_color(inv, objects, flags, cur, i)
            != TextColor::Inactive,
{
    crate::casts::lemma_u16_as_i16(inv[i].amount);
    crate::casts::lemma_u16_as_i16(inv[i].amount_in_use);
}

/// The items of a page stand in three columns 100 apart and in lines 18 apart.
pub proof fn law_items_stand_in_columns(inv: Seq<Inventory>, objects: Seq<GameObject>, flags: u16, cur: int, first: int, line: int, column: int)
    requires
        0 <= line < 7,
        0 <= column < 3,
    ensures
        ({
            let t = 3 * line + column;
            let d = place_draws(inv, objects, flags, cur, first, t)[0];
            &&& d matches Draw::Word { word, x, y, .. }
            &&& word == inv[first + t].item
            &&& x == 15 + 100 * column
            &&& y == 12 + 18 * line
        }),
        cur - first == 3 * line + column ==> cursor_at(cur, first, 3 * line + column + 1) == (Draw::Sprite {
            sprite: UiSprite::Cursor,
            x: (40 + 100 * column) as i32,
            y: (22 + 18 * line) as i32,
        }),
{
    let t = 3 * line + column;
    assert(t % 3 == column && t / 3 == line);
}

/// What the party wears and can be used joins the list behind the inventory, as
/// in use and none left; what is in the inventory stays in front.
pub proof fn law_worn_items_join(g: &Globals, inv: Seq<Inventory>, count: int, n: int)
    requires
        inv.len() == 256,
        0 <= count <= 256,
        0 <= n,
    ensures
        ({
            let (list, c) = with_worn(g, inv, count, n);
            &&& list.len() == 256
            &&& count <= c <= count + n
            &&& c <= 256
            &&& forall|i: int| 0 <= i < count ==> #[trigger] list[i] == inv[i]
            &&& forall|i: int| count <= i < c ==> (#[trigger] list[i]).amount == 0 && list[i].amount_in_use == 0xffff && usable(g, list[i].item)
            &&& c < 256 ==> forall|k: int|
                0 <= k < n && usable(g, #[trigger] worn(g, k)) ==> exists|i: int| count <= i < c && (#[trigger] list[i]).item == worn(g, k)
        }),
    decreases n,
{
    if n > 0 {
        law_worn_items_join(g, inv, count, n - 1);
        let (before, b) = with_worn(g, inv, count, n - 1);
        let (list, c) = with_worn(g, inv, count, n);
        if c < 256 {
            assert forall|k: int| 0 <= k < n && usable(g, #[trigger] worn(g, k)) implies exists|i: int|
                count <= i < c && (#[trigger] list[i]).item == worn(g, k) by {
                if k == n - 1 {
                    assert(list[b].item == worn(g, k));
                } else {
                    let i = choose|i: int| count <= i < b && (#[trigger] before[i]).item == worn(g, k);
                    assert(list[i] == before[i]);
                }
            }
        }
    }
}

/// What the party wears is gone through member by member, six pieces each.
pub proof fn law_worn_goes_by_member(g: &Globals, member: int, part: int)
    requires
        0 <= member,
        0 <= part < 6,
    ensures
        worn(g, 6 * member + part) == g.game.player_roles.equipment@[part]@[g.party@[member].player_role as int],
{
    assert((6 * member + part) / 6 == member && (6 * member + part) % 6 == part);
}

/// The menu key leaves the menu, unless another key moves the selection.
pub proof fn law_menu_key_leaves(keys: u32, cur: int, count: int)
    ensures
        keys_leave(keys) ==> keys & KEY_MENU != 0 && item_delta(keys, cur, count) == 0,
        keys & KEY_MENU == 0 ==> !keys_leave(keys),
{
}

/// Of the selected item the image is drawn in its box; how many are left is
/// drawn where there is more than one.
pub proof fn law_selected_item_is_pictured(inv: Seq<Inventory>, objects: Seq<GameObject>, flags: u16, cur: int, first: int, t: int)
    requires
        0 <= t < 21,
        inv[first + t].amount < 0x8000,
        inv[first + t].amount_in_use < 0x8000,
    ensures
        ({
            let d = place_draws(inv, objects, flags, cur, first, t);
            let left = inv[first + t].amount - inv[first + t].amount_in_use;
            &&& first + t == cur ==> d[1] == (Draw::SpriteShadow { sprite: UiSprite::ItemBox, x: 5, y: 145 }) && d[2]
                == (Draw::Sprite { sprite: UiSprite::ItemBox, x: 0, y: 140 }) && d[3] == (Draw::ItemImage {
                bitmap: objects[inv[first + t].item as int].data@[0],
                x: 8,
                y: 147,
            })
            &&& d.len() == (if first + t == cur { 4int } else { 1 }) + (if left > 1 { 1int } else { 0 })
            &&& left > 1 ==> d.last() == (Draw::Number {
                value: left as u32,
                length: 2,
                x: (96 + 100 * (t % 3)) as i32,
                y: (17 + 18 * (t / 3)) as i32,
                tint: NumberColor::Cyan,
            })
        }),
{
    crate::casts::lemma_u16_as_i16(inv[first + t].amount);
    crate::casts::lemma_u16_as_i16(inv[first + t].amount_in_use);
}

} // verus!
