//! The menu in which a magic is chosen.

use vstd::prelude::*;

use crate::agent_battle;
use crate::agent_battle::MenuEntry;
use crate::draw;
use crate::draw::{Draw, MenuStep, MenuTurn, NumberColor, TextColor, UiSprite, NO_CHOICE};
use crate::engine::Engine;
use crate::global::{MAGICFLAG_USABLE_IN_BATTLE, MAGICFLAG_USABLE_OUTSIDE_BATTLE};
use crate::input::{
    Keyboard, KEY_DOWN, KEY_END, KEY_HOME, KEY_LEFT, KEY_MENU, KEY_PGDN, KEY_PGUP, KEY_RIGHT, KEY_SEARCH, KEY_UP,
};
use crate::itemmenu;
use crate::records::GameObject;
use crate::text;
use crate::ui::{AgentMenu, AgentMenuItem};

verus! {

/// The color of a full time meter.
pub const TIMEMETER_COLOR_DEFAULT: u8 = 0x1b;

/// The number of the word for cash.
pub const CASH_LABEL: u16 = 21;

/// An entry of a magic menu.
#[derive(Clone, Copy, Debug, PartialEq, Eq, Structural)]
pub struct MagicItem {
    pub magic: u16,
    pub mp: u16,
    pub enabled: bool,
}

/// A magic menu.
pub struct MagicMenuCtx {
    pub items: Vec<MagicItem>,
    pub current: usize,
    pub player_mp: u16,
}

/// A magic is in the tables.
pub open spec fn magic_known(e: &Engine, magic: u16) -> bool {
    &&& magic < e.globals.game.objects@.len()
    &&& e.globals.game.objects@[magic as int].data@[0] < e.globals.game.magics@.len()
}

/// The magics of a role are in the tables.
pub open spec fn role_magics_known(e: &Engine, role: int) -> bool {
    forall|i: int|
        0 <= i < 32 ==> (#[trigger] e.globals.game.player_roles.magic@[i])@[role] == 0 || magic_known(
            e,
            e.globals.game.player_roles.magic@[i]@[role],
        )
}

/// A magic as an entry: it can be chosen if it can be paid and used here.
pub open spec fn magic_item(e: &Engine, magic: u16, player_mp: u16, in_battle: bool) -> MagicItem {
    let object = e.globals.game.objects@[magic as int];
    let mp = e.globals.game.magics@[object.data@[0] as int].cost_mp;
    let here = if in_battle { MAGICFLAG_USABLE_IN_BATTLE } else { MAGICFLAG_USABLE_OUTSIDE_BATTLE };
    MagicItem { magic, mp, enabled: mp <= player_mp && object.data@[6] & here != 0 }
}

/// Put an entry into a list ordered by magic.
pub open spec fn put_magic(list: Seq<MagicItem>, it: MagicItem) -> Seq<MagicItem>
    decreases list.len(),
{
    if list.len() == 0 || list.last().magic <= it.magic {
        list.push(it)
    } else {
        put_magic(list.drop_last(), it).push(list.last())
    }
}

/// The magics in the first `n` places of a role, ordered.
pub open spec fn role_magics(e: &Engine, role: int, in_battle: bool, n: int) -> Seq<MagicItem>
    decreases n,
{
    if n <= 0 {
        Seq::empty()
    } else {
        let before = role_magics(e, role, in_battle, n - 1);
        let roles = e.globals.game.player_roles;
        let magic = roles.magic@[n - 1]@[role];
        if magic == 0 {
            before
        } else {
            put_magic(before, magic_item(e, magic, roles.mp@[role], in_battle))
        }
    }
}

/// The first of `n` entries with a magic.
pub open spec fn first_with(list: Seq<MagicItem>, magic: u16, n: int) -> Option<int>
    decreases n,
{
    if n <= 0 {
        None
    } else {
        match first_with(list, magic, n - 1) {
            Some(k) => Some(k),
            None => if list[n - 1].magic == magic {
                Some(n - 1)
            } else {
                None
            },
        }
    }
}

/// The first entry with a magic; the first of all if there is none.
pub open spec fn place_of_magic(list: Seq<MagicItem>, magic: u16) -> int {
    match first_with(list, magic, list.len() as int) {
        Some(k) => k,
        None => 0,
    }
}

proof fn lemma_put_magic(list: Seq<MagicItem>, it: MagicItem, k: int)
    requires
        0 <= k <= list.len(),
        k == 0 || list[k - 1].magic <= it.magic,
        forall|j: int| k <= j < list.len() ==> (#[trigger] list[j]).magic > it.magic,
    ensures
        put_magic(list, it) == list.insert(k, it),
    decreases list.len(),
{
    if list.len() == 0 || list.last().magic <= it.magic {
        assert(k == list.len());
        assert(list.insert(k, it) =~= list.push(it));
    } else {
        if k == list.len() {
            assert(list[k - 1] == list.last());
        }
        let front = list.drop_last();
        assert forall|j: int| k <= j < front.len() implies (#[trigger] front[j]).magic > it.magic by {
            assert(front[j] == list[j]);
        }
        lemma_put_magic(front, it, k);
        assert(front.insert(k, it).push(list.last()) =~= list.insert(k, it));
    }
}

/// The entries come in the order of their magics.
pub proof fn law_magics_are_ordered(e: &Engine, role: int, in_battle: bool, n: int)
    requires
        0 <= n,
    ensures
        forall|i: int, j: int|
            0 <= i <= j < role_magics(e, role, in_battle, n).len() ==> role_magics(e, role, in_battle, n)[i].magic
                <= role_magics(e, role, in_battle, n)[j].magic,
        role_magics(e, role, in_battle, n).len() <= n,
    decreases n,
{
    if n > 0 {
        law_magics_are_ordered(e, role, in_battle, n - 1);
        let before = role_magics(e, role, in_battle, n - 1);
        let roles = e.globals.game.player_roles;
        lemma_put_keeps_order(before, magic_item(e, roles.magic@[n - 1]@[role], roles.mp@[role], in_battle));
    }
}

proof fn lemma_put_keeps_order(list: Seq<MagicItem>, it: MagicItem)
    requires
        forall|i: int, j: int| 0 <= i <= j < list.len() ==> list[i].magic <= list[j].magic,
    ensures
        put_magic(list, it).len() == list.len() + 1,
        forall|i: int, j: int|
            0 <= i <= j < list.len() + 1 ==> put_magic(list, it)[i].magic <= put_magic(list, it)[j].magic,
        put_magic(list, it).last() == it || list.len() > 0 && put_magic(list, it).last() == list.last(),
        list.len() > 0 && list.last().magic > it.magic ==> put_magic(list, it).last() == list.last(),
    decreases list.len(),
{
    if list.len() > 0 && list.last().magic > it.magic {
        lemma_put_keeps_order(list.drop_last(), it);
    }
}

/// How far the keys move the selection.
pub open spec fn magic_delta(keys: u32, cur: int, count: int) -> int {
    if keys & KEY_UP != 0 {
        -3
    } else if keys & KEY_DOWN != 0 {
        3
    } else if keys & KEY_LEFT != 0 {
        -1
    } else if keys & KEY_RIGHT != 0 {
        1
    } else if keys & KEY_PGUP != 0 {
        -15
    } else if keys & KEY_PGDN != 0 {
        15
    } else if keys & KEY_HOME != 0 {
        -cur
    } else if keys & KEY_END != 0 {
        count - cur - 1
    } else {
        0
    }
}

/// The first magic of the page that shows entry `cur`.
pub open spec fn magic_page_start(cur: int) -> int {
    let i = cur / 3 * 3 - 6;
    if i < 0 {
        0
    } else {
        i
    }
}

/// The color of an entry.
pub open spec fn magic_color(items: Seq<MagicItem>, cur: int, i: int) -> TextColor {
    if i == cur {
        if items[i].enabled {
            TextColor::Selected
        } else {
            TextColor::SelectedInactive
        }
    } else if items[i].enabled {
        TextColor::Normal
    } else {
        TextColor::Inactive
    }
}

/// What is drawn for place `t` of a page.
pub open spec fn magic_place(items: Seq<MagicItem>, cur: int, first: int, t: int) -> Seq<Draw> {
    let i = first + t;
    let x = 87 * (t % 3);
    let y = 18 * (t / 3);
    let d = Seq::empty().push(
        Draw::Word {
            word: items[i].magic,
            x: (35 + x) as i32,
            y: (54 + y) as i32,
            color: magic_color(items, cur, i),
            shadow: true,
            update: false,
        },
    );
    if i == cur {
        d.push(Draw::Sprite { sprite: UiSprite::Cursor, x: (60 + x) as i32, y: (64 + y) as i32 })
    } else {
        d
    }
}

/// What is drawn for the first `n` places of a page.
pub open spec fn magic_page(items: Seq<MagicItem>, cur: int, first: int, n: int) -> Seq<Draw>
    decreases n,
{
    if n <= 0 {
        Seq::empty()
    } else {
        magic_page(items, cur, first, n - 1) + magic_place(items, cur, first, n - 1)
    }
}

/// How many places of a page show an entry.
pub open spec fn magics_shown(count: int, first: int) -> int {
    if count - first <= 0 {
        0
    } else if count - first < 15 {
        count - first
    } else {
        15
    }
}

/// The magic points that the selected entry takes.
pub open spec fn selected_mp(items: Seq<MagicItem>, cur: int) -> u16 {
    if cur < items.len() {
        items[cur].mp
    } else {
        0
    }
}

/// The boxes around the list.
pub open spec fn magic_boxes(items: Seq<MagicItem>, cur: int, player_mp: u16, cash: u32) -> Seq<Draw> {
    Seq::empty()
        .push(Draw::BoxWithShadow { x: 10, y: 42, rows: 4, columns: 16 })
        .push(Draw::SingleLineBox { x: 0, y: 0, len: 5 })
        .push(Draw::Word { word: CASH_LABEL, x: 10, y: 10, color: TextColor::Plain, shadow: false, update: false })
        .push(Draw::Number { value: cash, length: 6, x: 49, y: 14, tint: NumberColor::Yellow })
        .push(Draw::SingleLineBox { x: 215, y: 0, len: 5 })
        .push(Draw::Sprite { sprite: UiSprite::Slash, x: 260, y: 14 })
        .push(Draw::Number { value: selected_mp(items, cur) as u32, length: 4, x: 230, y: 14, tint: NumberColor::Yellow })
        .push(Draw::Number { value: player_mp as u32, length: 4, x: 265, y: 14, tint: NumberColor::Cyan })
}

/// The selected entry is confirmed.
pub open spec fn confirms(items: Seq<MagicItem>, keys: u32, cur: int) -> bool {
    keys & KEY_SEARCH != 0 && cur < items.len() && items[cur].enabled
}

/// What a confirmed entry draws.
pub open spec fn confirmed_draws(items: Seq<MagicItem>, cur: int) -> Seq<Draw> {
    let x = 35 + 87 * (cur % 3);
    let y = 54 + 18 * (if cur < 6 { cur / 3 } else { 2 });
    Seq::empty().push(
        Draw::Word {
            word: items[cur].magic,
            x: x as i32,
            y: y as i32,
            color: TextColor::Confirmed,
            shadow: false,
            update: true,
        },
    ).push(Draw::Sprite { sprite: UiSprite::Cursor, x: (x + 25) as i32, y: (y + 10) as i32 })
}

/// Everything that a turn draws.
pub open spec fn turn_draws(items: Seq<MagicItem>, keys: u32, cur: int, player_mp: u16, cash: u32) -> Seq<Draw> {
    let first = magic_page_start(cur);
    let d = magic_boxes(items, cur, player_mp, cash) + magic_page(
        items,
        cur,
        first,
        magics_shown(items.len() as int, first),
    );
    if confirms(items, keys, cur) {
        d + confirmed_draws(items, cur)
    } else {
        d
    }
}

/// An entry as it is told.
pub open spec fn magic_entry(e: &Engine, it: MagicItem) -> MenuEntry {
    MenuEntry {
        value: it.magic as int,
        label: e.texts.word_text(it.magic as int) + " (MP "@ + text::decimal(it.mp as nat) + ")"@,
        enabled: it.enabled,
    }
}

/// The menu shows the magics.
pub open spec fn shows_magics(e: &Engine, menu: Option<AgentMenu>, cur: int, items: Seq<MagicItem>) -> bool {
    menu matches Some(m) && m.kind@ == "magic"@ && m.index == cur && agent_battle::entries(m.items@) == Seq::new(
        items.len(),
        |i: int| magic_entry(e, items[i]),
    )
}

impl Engine {
    /// The magics of a role, with the one that is selected first.
    pub fn magic_selection_menu_init(&self, player_role: u16, in_battle: bool, default_magic: u16) -> (ctx: MagicMenuCtx)
        requires
            player_role < 6,
            role_magics_known(self, player_role as int),
        ensures
            ctx.items@ == role_magics(self, player_role as int, in_battle, 32),
            ctx.items@.len() <= 32,
            ctx.current == place_of_magic(ctx.items@, default_magic),
            ctx.player_mp == self.globals.game.player_roles.mp@[player_role as int],
            ctx.items@.len() > 0 ==> ctx.current < ctx.items@.len(),
            ctx.items@.len() == 0 ==> ctx.current == 0,
    {
        let role: usize = player_role as usize;
        let player_mp: u16 = self.globals.game.player_roles.mp[role];
        let here: u16 = if in_battle {
            MAGICFLAG_USABLE_IN_BATTLE
        } else {
            MAGICFLAG_USABLE_OUTSIDE_BATTLE
        };
        let mut items: Vec<MagicItem> = Vec::new();
        assert(items@ =~= Seq::<MagicItem>::empty());
        for i in 0..32usize
            invariant
                role == player_role,
                role < 6,
                role_magics_known(self, role as int),
                player_mp == self.globals.game.player_roles.mp@[role as int],
                here == if in_battle { MAGICFLAG_USABLE_IN_BATTLE } else { MAGICFLAG_USABLE_OUTSIDE_BATTLE },
                items@ == role_magics(self, role as int, in_battle, i as int),
                items@.len() <= i,
        {
            let magic: u16 = self.globals.game.player_roles.magic[i][role];
            if magic != 0 {
                assert(magic_known(self, self.globals.game.player_roles.magic@[i as int]@[role as int]));
                let object: GameObject = self.globals.game.objects[magic as usize];
                let mp: u16 = self.globals.game.magics[object.magic_number() as usize].cost_mp;
                let it: MagicItem = MagicItem {
                    magic,
                    mp,
                    enabled: mp <= player_mp && object.magic_flags() & here != 0,
                };
                let mut k: usize = items.len();
                while k > 0 && items[k - 1].magic > it.magic
                    invariant
                        k <= items@.len(),
                        forall|j: int| k <= j < items@.len() ==> (#[trigger] items@[j]).magic > it.magic,
                    decreases k,
                {
                    k = k - 1;
                }
                proof {
                    lemma_put_magic(items@, it, k as int);
                }
                items.insert(k, it);
            }
        }
        let mut found: Option<usize> = None;
        for i in 0..items.len()
            invariant
                match first_with(items@, default_magic, i as int) {
                    Some(k) => found matches Some(f) && f == k && f < i,
                    None => found is None,
                },
        {
            if found.is_none() && items[i].magic == default_magic {
                found = Some(i);
            }
        }
        let current: usize = match found {
            Some(i) => i,
            None => 0,
        };
        MagicMenuCtx { items, current, player_mp }
    }

    /// Where the keys move the selection, unless they leave the menu.
    fn magic_selection(&self, current: usize, num: usize) -> (r: Option<usize>)
        requires
            num <= 32,
            current <= 32,
        ensures
            ({
                let keys = self.input@.key_press;
                if itemmenu::keys_leave(keys) {
                    r is None
                } else {
                    r matches Some(c) && c == draw::moved(
                        current as int,
                        magic_delta(keys, current as int, num as int),
                        num as int,
                    ) && c <= 32
                }
            }),
    {
        let cur: i32 = current as i32;
        let count: i32 = num as i32;
        let delta: i32 = if self.input.pressed(KEY_UP) {
            -3
        } else if self.input.pressed(KEY_DOWN) {
            3
        } else if self.input.pressed(KEY_LEFT) {
            -1
        } else if self.input.pressed(KEY_RIGHT) {
            1
        } else if self.input.pressed(KEY_PGUP) {
            -15
        } else if self.input.pressed(KEY_PGDN) {
            15
        } else if self.input.pressed(KEY_HOME) {
            -cur
        } else if self.input.pressed(KEY_END) {
            count - cur - 1
        } else if self.input.pressed(KEY_MENU) {
            return None;
        } else {
            0
        };
        if cur + delta < 0 {
            Some(0)
        } else if cur + delta >= count {
            if count > 0 {
                Some((count - 1) as usize)
            } else {
                Some(0)
            }
        } else {
            Some((cur + delta) as usize)
        }
    }

    fn magic_menu(&self, items: &Vec<MagicItem>, current: usize) -> (menu: AgentMenu)
        ensures
            shows_magics(self, Some(menu), current as int, items@),
    {
        let mut list: Vec<AgentMenuItem> = Vec::new();
        assert(agent_battle::entries(list@) =~= Seq::new(0, |k: int| magic_entry(self, items@[k])));
        for i in 0..items.len()
            invariant
                agent_battle::entries(list@) == Seq::new(i as nat, |k: int| magic_entry(self, items@[k])),
        {
            let it: MagicItem = items[i];
            let mut label: String = self.texts.word(it.magic as usize);
            label.push_str(" (MP ");
            text::push_decimal(&mut label, it.mp as u64);
            label.push_str(")");
            assert(label@ =~= magic_entry(self, it).label);
            let ghost before = list@;
            list.push(AgentMenuItem { value: it.magic, label, enabled: it.enabled });
            assert(agent_battle::entries(list@) =~= agent_battle::entries(before).push(list@.last()@));
            assert(agent_battle::entries(list@) =~= Seq::new((i + 1) as nat, |k: int| magic_entry(self, items@[k])));
        }
        let mut kind: String = String::new();
        kind.push_str("magic");
        assert(kind@ =~= "magic"@);
        AgentMenu { kind, index: current, items: list }
    }

    fn magic_turn(&self, items: &Vec<MagicItem>, current: usize, player_mp: u16) -> (r: (MenuTurn, bool))
        requires
            items@.len() <= 32,
            current <= 32,
        ensures
            r.0.draws@ == turn_draws(
                items@,
                self.input@.key_press,
                current as int,
                player_mp,
                self.globals.cash,
            ),
            r.1 == confirms(items@, self.input@.key_press, current as int),
            r.0.choice == if r.1 {
                items@[current as int].magic
            } else {
                NO_CHOICE
            },
    {
        let mut draws: Vec<Draw> = Vec::new();
        let mp: u16 = if current < items.len() {
            items[current].mp
        } else {
            0
        };
        draws.push(Draw::BoxWithShadow { x: 10, y: 42, rows: 4, columns: 16 });
        draws.push(Draw::SingleLineBox { x: 0, y: 0, len: 5 });
        draws.push(Draw::Word { word: CASH_LABEL, x: 10, y: 10, color: TextColor::Plain, shadow: false, update: false });
        draws.push(Draw::Number { value: self.globals.cash, length: 6, x: 49, y: 14, tint: NumberColor::Yellow });
        draws.push(Draw::SingleLineBox { x: 215, y: 0, len: 5 });
        draws.push(Draw::Sprite { sprite: UiSprite::Slash, x: 260, y: 14 });
        draws.push(Draw::Number { value: mp as u32, length: 4, x: 230, y: 14, tint: NumberColor::Yellow });
        draws.push(Draw::Number { value: player_mp as u32, length: 4, x: 265, y: 14, tint: NumberColor::Cyan });
        assert(draws@ =~= magic_boxes(items@, current as int, player_mp, self.globals.cash));
        let start: usize = current / 3 * 3;
        let first: usize = if start < 6 {
            0
        } else {
            start - 6
        };
        let page: Vec<Draw> = page_of(items, current, first);
        draw::push_all(&mut draws, &page);
        if self.input.pressed(KEY_SEARCH) && current < items.len() && items[current].enabled {
            let x: i32 = 35 + 87 * (current % 3) as i32;
            let y: i32 = 54 + 18 * (if current < 6 {
                current / 3
            } else {
                2
            }) as i32;
            let ghost before = draws@;
            draws.push(
                Draw::Word {
                    word: items[current].magic,
                    x,
                    y,
                    color: TextColor::Confirmed,
                    shadow: false,
                    update: true,
                },
            );
            draws.push(Draw::Sprite { sprite: UiSprite::Cursor, x: x + 25, y: y + 10 });
            assert(draws@ =~= before + confirmed_draws(items@, current as int));
            return (MenuTurn { choice: items[current].magic, draws }, true);
        }
        (MenuTurn { choice: NO_CHOICE, draws }, false)
    }

    /// A turn of a magic menu: the keys move the selection, leave the menu or
    /// confirm, and the menu is drawn.
    pub fn magic_selection_menu_update(&mut self, ctx: &mut MagicMenuCtx) -> (turn: MenuTurn)
        requires
            old(self).wf(),
            old(ctx).items@.len() <= 32,
            old(ctx).current <= 32,
        ensures
            final(self).wf(),
            ({
                let keys = old(self).input@.key_press;
                let items = old(ctx).items@;
                let cur = draw::moved(
                    old(ctx).current as int,
                    magic_delta(keys, old(ctx).current as int, items.len() as int),
                    items.len() as int,
                );
                if itemmenu::keys_leave(keys) {
                    &&& turn.choice == 0
                    &&& turn.draws@ == Seq::<Draw>::empty()
                    &&& final(self).ui.agent_menu is None
                    &&& final(ctx).current == old(ctx).current
                } else {
                    &&& final(ctx).current == cur
                    &&& turn.draws@ == turn_draws(items, keys, cur, old(ctx).player_mp, old(self).globals.cash)
                    &&& turn.choice == if confirms(items, keys, cur) { items[cur].magic } else { NO_CHOICE }
                    &&& if confirms(items, keys, cur) {
                        final(self).ui.agent_menu is None
                    } else {
                        shows_magics(old(self), final(self).ui.agent_menu, cur, items)
                    }
                }
            }),
            final(ctx).items@ == old(ctx).items@,
            final(ctx).player_mp == old(ctx).player_mp,
            draw::only_menu_changed(old(self).ui, final(self).ui),
            *final(self) == (Engine { ui: final(self).ui, ..*old(self) }),
    {
        let current: usize = match self.magic_selection(ctx.current, ctx.items.len()) {
            Some(current) => current,
            None => {
                self.ui.agent_menu = None;
                return MenuTurn { choice: 0, draws: Vec::new() };
            },
        };
        let menu: AgentMenu = self.magic_menu(&ctx.items, current);
        let (turn, confirmed): (MenuTurn, bool) = self.magic_turn(&ctx.items, current, ctx.player_mp);
        ctx.current = current;
        self.ui.agent_menu = if confirmed {
            None
        } else {
            Some(menu)
        };
        turn
    }

    /// Open a magic menu and forget the keys, unless the role has no magics.
    pub fn magic_selection_menu(&mut self, player_role: u16, in_battle: bool, default_magic: u16) -> (r: Option<MagicMenuCtx>)
        requires
            old(self).wf(),
            player_role < 6,
            role_magics_known(old(self), player_role as int),
        ensures
            final(self).wf(),
            ({
                let items = role_magics(old(self), player_role as int, in_battle, 32);
                if items.len() == 0 {
                    r is None && *final(self) == *old(self)
                } else {
                    &&& r matches Some(ctx) && ctx.items@ == items && ctx.current == place_of_magic(items, default_magic) && ctx.player_mp == old(self).globals.game.player_roles.mp@[player_role as int] && ctx.current
                        < items.len() <= 32
                    &&& final(self).input@ == (Keyboard { key_press: 0, pending_dir: 4, ..old(self).input@ })
                    &&& *final(self) == (Engine { input: final(self).input, ..*old(self) })
                }
            }),
    {
        let ctx: MagicMenuCtx = self.magic_selection_menu_init(player_role, in_battle, default_magic);
        if ctx.items.len() == 0 {
            return None;
        }
        self.input.clear_key_state();
        Some(ctx)
    }

    /// The boxes with the points of the party, below a magic menu.
    pub fn magic_menu_party(&self) -> (r: Vec<Draw>)
        requires
            self.globals.max_party_member_index < 5,
        ensures
            r@ == Seq::new(
                (self.globals.max_party_member_index + 1) as nat,
                |i: int|
                    Draw::PlayerInfo { role: self.globals.party@[i].player_role, x: (45 + 78 * i) as i32, y: 165 },
            ),
    {
        let n: usize = self.globals.max_party_member_index as usize + 1;
        let mut r: Vec<Draw> = Vec::new();
        for i in 0..n
            invariant
                n <= 5,
                r@ == Seq::new(
                    i as nat,
                    |k: int|
                        Draw::PlayerInfo { role: self.globals.party@[k].player_role, x: (45 + 78 * k) as i32, y: 165 },
                ),
        {
            let ghost before = r@;
            r.push(Draw::PlayerInfo { role: self.globals.party[i].player_role, x: 45 + 78 * i as i32, y: 165 });
            assert(r@ =~= Seq::new(
                (i + 1) as nat,
                |k: int|
                    Draw::PlayerInfo { role: self.globals.party@[k].player_role, x: (45 + 78 * k) as i32, y: 165 },
            ));
        }
        r
    }

    /// What to do when a turn has been shown: a choice leaves the menu; where
    /// waits are answered at once, the selected magic is the choice if it can
    /// be chosen.
    pub fn magic_menu_shown(&self, ctx: &MagicMenuCtx, choice: u16) -> (s: MenuStep)
        requires
            ctx.current < ctx.items@.len(),
        ensures
            s == if choice != NO_CHOICE {
                MenuStep::Leave { choice }
            } else if !self.ui.auto_confirm {
                MenuStep::Wait
            } else if ctx.items@[ctx.current as int].enabled {
                MenuStep::Leave { choice: ctx.items@[ctx.current as int].magic }
            } else {
                MenuStep::Leave { choice: 0 }
            },
    {
        if choice != NO_CHOICE {
            return MenuStep::Leave { choice };
        }
        if !self.ui.auto_confirm {
            return MenuStep::Wait;
        }
        let it: MagicItem = ctx.items[ctx.current];
        MenuStep::Leave {
            choice: if it.enabled {
                it.magic
            } else {
                0
            },
        }
    }

    /// What to do at the end of a frame: a wish to quit leaves the menu.
    pub fn magic_menu_next(&self) -> (s: MenuStep)
        ensures
            s == if self.quit_requested { MenuStep::Leave { choice: 0 } } else { MenuStep::Again },
    {
        if self.quit_requested {
            MenuStep::Leave { choice: 0 }
        } else {
            MenuStep::Again
        }
    }
}

fn page_of(items: &Vec<MagicItem>, current: usize, first: usize) -> (r: Vec<Draw>)
    requires
        items@.len() <= 32,
        first <= 32,
        current <= 32,
    ensures
        r@ == magic_page(
            items@,
            current as int,
            first as int,
            magics_shown(items@.len() as int, first as int),
        ),
{
    let mut r: Vec<Draw> = Vec::new();
    assert(r@ =~= Seq::<Draw>::empty());
    let mut t: usize = 0;
    while t < 15 && first + t < items.len()
        invariant
            items@.len() <= 32,
            first <= 32,
            t <= 15,
            t == 0 || first + t <= items@.len(),
            r@ == magic_page(items@, current as int, first as int, t as int),
        decreases 15 - t,
    {
        let i: usize = first + t;
        let it: MagicItem = items[i];
        let x: i32 = 87 * (t % 3) as i32;
        let y: i32 = 18 * (t / 3) as i32;
        let color: TextColor = if i == current {
            if it.enabled {
                TextColor::Selected
            } else {
                TextColor::SelectedInactive
            }
        } else if it.enabled {
            TextColor::Normal
        } else {
            TextColor::Inactive
        };
        let ghost before = r@;
        r.push(Draw::Word { word: it.magic, x: 35 + x, y: 54 + y, color, shadow: true, update: false });
        if i == current {
            r.push(Draw::Sprite { sprite: UiSprite::Cursor, x: 60 + x, y: 64 + y });
        }
        assert(r@ =~= before + magic_place(items@, current as int, first as int, t as int));
        t = t + 1;
    }
    r
}

/// A magic can be chosen if the points suffice and it can be used where the
/// party is.
pub proof fn law_magic_has_to_be_paid(e: &Engine, magic: u16, player_mp: u16, in_battle: bool)
    ensures
        ({
            let o = e.globals.game.objects@[magic as int];
            let cost = e.globals.game.magics@[o.data@[0] as int].cost_mp;
            let it = magic_item(e, magic, player_mp, in_battle);
            &&& it.magic == magic
            &&& it.mp == cost
            &&& it.enabled ==> cost <= player_mp
            &&& in_battle ==> (it.enabled <==> cost <= player_mp && o.data@[6] & 2 != 0)
            &&& !in_battle ==> (it.enabled <==> cost <= player_mp && o.data@[6] & 1 != 0)
        }),
{
}

/// The entries are those of the magics that the role knows: each place with a
/// magic has one, and none comes from elsewhere.
pub proof fn law_known_magics_are_listed(e: &Engine, role: int, in_battle: bool, n: int)
    requires
        0 <= n <= 32,
    ensures
        ({
            let list = role_magics(e, role, in_battle, n);
            let roles = e.globals.game.player_roles;
            &&& forall|i: int|
                0 <= i < n && (#[trigger] roles.magic@[i])@[role] != 0 ==> list.contains(
                    magic_item(e, roles.magic@[i]@[role], roles.mp@[role], in_battle),
                )
            &&& forall|k: int|
                0 <= k < list.len() ==> exists|i: int|
                    0 <= i < n && (#[trigger] roles.magic@[i])@[role] != 0 && #[trigger] list[k] == magic_item(
                        e,
                        roles.magic@[i]@[role],
                        roles.mp@[role],
                        in_battle,
                    )
        }),
    decreases n,
{
    if n > 0 {
        law_known_magics_are_listed(e, role, in_battle, n - 1);
        let before = role_magics(e, role, in_battle, n - 1);
        let list = role_magics(e, role, in_battle, n);
        let roles = e.globals.game.player_roles;
        let magic = roles.magic@[n - 1]@[role];
        let it = magic_item(e, magic, roles.mp@[role], in_battle);
        if magic != 0 {
            lemma_put_magic_members(before, it);
            assert forall|i: int| 0 <= i < n && (#[trigger] roles.magic@[i])@[role] != 0 implies list.contains(
                magic_item(e, roles.magic@[i]@[role], roles.mp@[role], in_battle),
            ) by {
                if i < n - 1 {
                    assert(before.contains(magic_item(e, roles.magic@[i]@[role], roles.mp@[role], in_battle)));
                }
            }
            assert forall|k: int| 0 <= k < list.len() implies exists|i: int|
                0 <= i < n && (#[trigger] roles.magic@[i])@[role] != 0 && #[trigger] list[k] == magic_item(
                    e,
                    roles.magic@[i]@[role],
                    roles.mp@[role],
                    in_battle,
                ) by {
                assert(list.contains(list[k]));
                if list[k] == it {
                    assert(roles.magic@[n - 1]@[role] != 0);
                } else {
                    let m = choose|m: int| 0 <= m < before.len() && before[m] == list[k];
                    let i = choose|i: int|
                        0 <= i < n - 1 && (#[trigger] roles.magic@[i])@[role] != 0 && before[m] == magic_item(
                            e,
                            roles.magic@[i]@[role],
                            roles.mp@[role],
                            in_battle,
                        );
                    assert(roles.magic@[i]@[role] != 0);
                }
            }
        }
    }
}

proof fn lemma_put_magic_members(list: Seq<MagicItem>, it: MagicItem)
    ensures
        forall|x: MagicItem| #[trigger] put_magic(list, it).contains(x) <==> x == it || list.contains(x),
    decreases list.len(),
{
    let r = put_magic(list, it);
    if list.len() == 0 || list.last().magic <= it.magic {
        assert forall|x: MagicItem| #[trigger] r.contains(x) <==> x == it || list.contains(x) by {
            if r.contains(x) {
                let k = choose|k: int| 0 <= k < r.len() && r[k] == x;
                if k < list.len() {
                    assert(list[k] == x);
                }
            }
            if list.contains(x) {
                let k = choose|k: int| 0 <= k < list.len() && list[k] == x;
                assert(r[k] == x);
            }
            assert(r[list.len() as int] == it);
        }
    } else {
        let front = list.drop_last();
        lemma_put_magic_members(front, it);
        let put = put_magic(front, it);
        assert forall|x: MagicItem| #[trigger] r.contains(x) <==> x == it || list.contains(x) by {
            if r.contains(x) {
                let k = choose|k: int| 0 <= k < r.len() && r[k] == x;
                if k < put.len() {
                    assert(put[k] == x);
                    assert(put.contains(x));
                    if x != it {
                        let m = choose|m: int| 0 <= m < front.len() && front[m] == x;
                        assert(list[m] == x);
                    }
                } else {
                    assert(list[list.len() - 1] == x);
                }
            }
            if list.contains(x) {
                let k = choose|k: int| 0 <= k < list.len() && list[k] == x;
                if k < front.len() {
                    assert(front[k] == x);
                    assert(put.contains(x));
                    let m = choose|m: int| 0 <= m < put.len() && put[m] == x;
                    assert(r[m] == x);
                } else {
                    assert(r[put.len() as int] == x);
                }
            }
            if x == it {
                assert(put.contains(it));
                let m = choose|m: int| 0 <= m < put.len() && put[m] == it;
                assert(r[m] == it);
            }
        }
    }
}

/// The menu opens on the magic that was used last, the first entry with it, or
/// on the first entry.
pub proof fn law_menu_opens_on_the_last_magic(list: Seq<MagicItem>, magic: u16)
    ensures
        (exists|i: int| 0 <= i < list.len() && (#[trigger] list[i]).magic == magic) ==> {
            let k = place_of_magic(list, magic);
            &&& 0 <= k < list.len()
            &&& list[k].magic == magic
            &&& forall|i: int| 0 <= i < k ==> (#[trigger] list[i]).magic != magic
        },
        (forall|i: int| 0 <= i < list.len() ==> (#[trigger] list[i]).magic != magic) ==> place_of_magic(list, magic) == 0,
{
    lemma_first_with_is_first(list, magic, list.len() as int);
}

proof fn lemma_first_with_is_first(list: Seq<MagicItem>, magic: u16, n: int)
    requires
        0 <= n <= list.len(),
    ensures
        first_with(list, magic, n) is None <==> forall|i: int| 0 <= i < n ==> (#[trigger] list[i]).magic != magic,
        first_with(list, magic, n) matches Some(k) ==> {
            &&& 0 <= k < n
            &&& list[k].magic == magic
            &&& forall|i: int| 0 <= i < k ==> (#[trigger] list[i]).magic != magic
        },
    decreases n,
{
    if n > 0 {
        lemma_first_with_is_first(list, magic, n - 1);
    }
}

/// The arrow keys move the selection by a line or an entry, the page keys by a
/// page of five lines, and the others to the ends of the list; the first key in
/// this order counts.
pub proof fn law_magic_keys_move(keys: u32, cur: int, count: int)
    ensures
        keys & KEY_UP != 0 ==> magic_delta(keys, cur, count) == -3,
        keys & KEY_UP == 0 && keys & KEY_DOWN != 0 ==> magic_delta(keys, cur, count) == 3,
        keys & KEY_UP == 0 && keys & KEY_DOWN == 0 && keys & KEY_LEFT != 0 ==> magic_delta(keys, cur, count) == -1,
        keys & KEY_UP == 0 && keys & KEY_DOWN == 0 && keys & KEY_LEFT == 0 && keys & KEY_RIGHT != 0 ==> magic_delta(keys, cur, count) == 1,
        keys & KEY_UP == 0 && keys & KEY_DOWN == 0 && keys & KEY_LEFT == 0 && keys & KEY_RIGHT == 0 && keys & KEY_PGUP != 0 ==> magic_delta(keys, cur, count) == -15,
        keys & KEY_UP == 0 && keys & KEY_DOWN == 0 && keys & KEY_LEFT == 0 && keys & KEY_RIGHT == 0 && keys & KEY_PGUP == 0 && keys & KEY_PGDN != 0 ==> magic_delta(keys, cur, count) == 15,
        keys & KEY_UP == 0 && keys & KEY_DOWN == 0 && keys & KEY_LEFT == 0 && keys & KEY_RIGHT == 0 && keys & KEY_PGUP == 0 && keys & KEY_PGDN == 0 && keys & KEY_HOME != 0 ==> cur + magic_delta(keys, cur, count) == 0,
        keys & KEY_UP == 0 && keys & KEY_DOWN == 0 && keys & KEY_LEFT == 0 && keys & KEY_RIGHT == 0 && keys & KEY_PGUP == 0 && keys & KEY_PGDN == 0 && keys & KEY_HOME == 0 && keys & KEY_END != 0 ==> cur + magic_delta(keys, cur, count) + 1 == count,
        keys & KEY_UP == 0 && keys & KEY_DOWN == 0 && keys & KEY_LEFT == 0 && keys & KEY_RIGHT == 0 && keys & KEY_PGUP == 0 && keys & KEY_PGDN == 0 && keys & KEY_HOME == 0 && keys & KEY_END == 0 ==> magic_delta(keys, cur, count) == 0,
{
}

/// A page starts with a line; the selection is in its first three lines, and in
/// the third of them unless the page is the first. It shows 15 entries, or what
/// is left of them.
pub proof fn law_magic_page_shows_the_selection(cur: int, count: int)
    requires
        0 <= cur < count,
    ensures
        magic_page_start(cur) % 3 == 0,
        magic_page_start(cur) >= 0,
        magic_page_start(cur) == 0 ==> cur < 9,
        magic_page_start(cur) > 0 ==> 6 <= cur - magic_page_start(cur) < 9,
        magic_page_start(cur) <= cur < magic_page_start(cur) + magics_shown(count, magic_page_start(cur)),
        magics_shown(count, magic_page_start(cur)) <= 15,
        magics_shown(count, magic_page_start(cur)) < 15 ==> magic_page_start(cur) + magics_shown(count, magic_page_start(cur))
            == count,
{
}

/// The entries of a page stand in three columns 87 apart and in lines 18 apart,
/// the cursor under the selected one.
pub proof fn law_magics_stand_in_columns(items: Seq<MagicItem>, cur: int, first: int, line: int, column: int)
    requires
        0 <= line < 5,
        0 <= column < 3,
    ensures
        ({
            let t = 3 * line + column;
            let d = magic_place(items, cur, first, t);
            &&& d[0] matches Draw::Word { word, x, y, color, .. }
            &&& word == items[first + t].magic
            &&& x == 35 + 87 * column
            &&& y == 54 + 18 * line
            &&& color == TextColor::Selected <==> cur == first + t && items[first + t].enabled
            &&& color == TextColor::Normal <==> cur != first + t && items[first + t].enabled
            &&& color == TextColor::SelectedInactive <==> cur == first + t && !items[first + t].enabled
            &&& cur == first + t ==> d[1] == (Draw::Sprite {
                sprite: UiSprite::Cursor,
                x: (60 + 87 * column) as i32,
                y: (64 + 18 * line) as i32,
            })
            &&& d.len() == if cur == first + t { 2int } else { 1 }
        }),
{
    let t = 3 * line + column;
    assert(t % 3 == column && t / 3 == line);
}

/// A magic is chosen with the search key, if it can be.
pub proof fn law_search_key_chooses(items: Seq<MagicItem>, keys: u32, cur: int)
    requires
        0 <= cur < items.len(),
    ensures
        confirms(items, keys, cur) <==> keys & KEY_SEARCH != 0 && items[cur].enabled,
        selected_mp(items, cur) == items[cur].mp,
{
}

/// Above the list stand the cash, what the selected magic takes, and what the
/// role has.
pub proof fn law_points_stand_above_the_list(items: Seq<MagicItem>, cur: int, player_mp: u16, cash: u32)
    ensures
        ({
            let d = magic_boxes(items, cur, player_mp, cash);
            &&& d.len() == 8
            &&& d[3] == (Draw::Number { value: cash, length: 6, x: 49, y: 14, tint: NumberColor::Yellow })
            &&& 0 <= cur < items.len() ==> d[6] == (Draw::Number {
                value: items[cur].mp as u32,
                length: 4,
                x: 230,
                y: 14,
                tint: NumberColor::Yellow,
            })
            &&& d[7] == (Draw::Number { value: player_mp as u32, length: 4, x: 265, y: 14, tint: NumberColor::Cyan })
        }),
{
}

} // verus!
