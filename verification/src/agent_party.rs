//! The party and the inventory as JSON text.

use vstd::prelude::*;

use crate::engine::Engine;
use crate::global::{
    Globals, ITEMFLAG_APPLY_TO_ALL, ITEMFLAG_CONSUMING, ITEMFLAG_EQUIPABLE, ITEMFLAG_SELLABLE, ITEMFLAG_THROWABLE,
    ITEMFLAG_USABLE, MAGICFLAG_APPLY_TO_ALL, MAGICFLAG_USABLE_IN_BATTLE, MAGICFLAG_USABLE_OUTSIDE_BATTLE,
    MAGICFLAG_USABLE_TO_ENEMY,
};
use crate::json;
use crate::json::Members;
use crate::records::{GameObject, Inventory};
use crate::roles::PlayerRoles;
use crate::script;

verus! {

/// How many items are listed at most.
pub const MAX_INV_LIST: usize = 64;

/// The short name of a status.
pub open spec fn status_text(s: int) -> Seq<char> {
    if s == 0 {
        "conf"@
    } else if s == 1 {
        "para"@
    } else if s == 2 {
        "sleep"@
    } else if s == 3 {
        "silence"@
    } else if s == 4 {
        "puppet"@
    } else if s == 5 {
        "brave"@
    } else if s == 6 {
        "prot"@
    } else if s == 7 {
        "haste"@
    } else {
        "dual"@
    }
}

/// The short name of a status.
pub fn status_name(s: usize) -> (r: &'static str)
    ensures
        r@ == status_text(s as int),
{
    if s == 0 {
        "conf"
    } else if s == 1 {
        "para"
    } else if s == 2 {
        "sleep"
    } else if s == 3 {
        "silence"
    } else if s == 4 {
        "puppet"
    } else if s == 5 {
        "brave"
    } else if s == 6 {
        "prot"
    } else if s == 7 {
        "haste"
    } else {
        "dual"
    }
}

/// The statuses among the first `n` that last.
pub open spec fn status_list(values: Seq<u16>, n: int) -> Seq<Seq<char>>
    decreases n,
{
    if n <= 0 {
        Seq::empty()
    } else {
        let before = status_list(values, n - 1);
        let s = n - 1;
        let v = values[s];
        if v == 0 {
            before
        } else {
            let m = Seq::<Seq<char>>::empty()
                .push(json::num("id"@, s))
                .push(json::string("name"@, status_text(s)))
                .push(json::num("t"@, v as int));
            before.push(json::object(m))
        }
    }
}

/// The member that lists the statuses that last, if any does.
pub open spec fn status_members(m: Seq<Seq<char>>, values: Seq<u16>) -> Seq<Seq<char>> {
    if status_list(values, 9).len() > 0 {
        m.push(json::member("status"@, json::array(status_list(values, 9))))
    } else {
        m
    }
}

/// Append the statuses that last.
pub fn append_status(out: &mut Members, values: &[u16; 9])
    requires
        old(out).wf(),
    ensures
        final(out).wf(),
        final(out)@ == status_members(old(out)@, values@),
{
    let mut list: Members = Members::new();
    let mut any: bool = false;
    for s in 0..9usize
        invariant
            list.wf(),
            list@ == status_list(values@, s as int),
            any == (list@.len() > 0),
    {
        let v: u16 = values[s];
        if v != 0 {
            let mut m: Members = Members::new();
            m.num("id", s as u64);
            m.string("name", status_name(s));
            m.num("t", v as u64);
            let t: String = m.into_object();
            list.put(t.as_str());
            any = true;
        }
    }
    if any {
        let t: String = list.into_array();
        out.member("status", t.as_str());
    }
}

/// The equipment of a role, among the first `n` parts of the body.
pub open spec fn equipment_list(e: &Engine, role: int, n: int) -> Seq<Seq<char>>
    decreases n,
{
    if n <= 0 {
        Seq::empty()
    } else {
        let before = equipment_list(e, role, n - 1);
        let k = n - 1;
        let item = e.globals.game.player_roles.equipment@[k]@[role];
        if item == 0 {
            before
        } else {
            let m = Seq::<Seq<char>>::empty()
                .push(json::num("slot"@, k))
                .push(json::num("item"@, item as int))
                .push(json::string("name"@, script::named(&e.texts, item as int)));
            before.push(json::object(m))
        }
    }
}

fn equipment_text(engine: &Engine, role: usize) -> (s: String)
    requires
        role < 6,
    ensures
        s@ == json::array(equipment_list(engine, role as int, 6)),
{
    let mut list: Members = Members::new();
    for k in 0..6usize
        invariant
            role < 6,
            list.wf(),
            list@ == equipment_list(engine, role as int, k as int),
    {
        let item: u16 = engine.globals.game.player_roles.equipment[k][role];
        if item != 0 {
            let name: String = script::word_utf8(engine, item as usize);
            let mut m: Members = Members::new();
            m.num("slot", k as u64);
            m.num("item", item as u64);
            m.string("name", name.as_str());
            let t: String = m.into_object();
            list.put(t.as_str());
        }
    }
    list.into_array()
}

/// What a magic costs and where it can be used.
#[derive(Clone, Copy, Debug, PartialEq, Eq, Structural)]
pub struct MagicMeta {
    pub cost: u16,
    pub to_enemy: bool,
    pub all: bool,
    pub in_battle: bool,
    pub outside: bool,
}

/// What a magic costs and where it can be used; one that is not in the table
/// costs nothing and can be used anywhere.
pub open spec fn magic_facts(e: &Engine, magic: u16) -> MagicMeta {
    let objects = e.globals.game.objects@;
    let magics = e.globals.game.magics@;
    if magic < objects.len() {
        let number = objects[magic as int].data@[0];
        let flags = objects[magic as int].data@[6];
        MagicMeta {
            cost: if number < magics.len() { magics[number as int].cost_mp } else { 0 },
            to_enemy: flags & MAGICFLAG_USABLE_TO_ENEMY != 0,
            all: flags & MAGICFLAG_APPLY_TO_ALL != 0,
            in_battle: flags & MAGICFLAG_USABLE_IN_BATTLE != 0,
            outside: flags & MAGICFLAG_USABLE_OUTSIDE_BATTLE != 0,
        }
    } else {
        MagicMeta { cost: 0, to_enemy: false, all: false, in_battle: true, outside: true }
    }
}

/// What a magic costs and where it can be used.
pub fn magic_meta(engine: &Engine, magic_obj: u16) -> (r: MagicMeta)
    ensures
        r == magic_facts(engine, magic_obj),
{
    if magic_obj as usize >= engine.globals.game.objects.len() {
        return MagicMeta { cost: 0, to_enemy: false, all: false, in_battle: true, outside: true };
    }
    let obj: GameObject = engine.globals.game.objects[magic_obj as usize];
    let number: usize = obj.magic_number() as usize;
    let cost: u16 = if number < engine.globals.game.magics.len() {
        engine.globals.game.magics[number].cost_mp
    } else {
        0
    };
    let flags: u16 = obj.magic_flags();
    MagicMeta {
        cost,
        to_enemy: flags & MAGICFLAG_USABLE_TO_ENEMY != 0,
        all: flags & MAGICFLAG_APPLY_TO_ALL != 0,
        in_battle: flags & MAGICFLAG_USABLE_IN_BATTLE != 0,
        outside: flags & MAGICFLAG_USABLE_OUTSIDE_BATTLE != 0,
    }
}

/// A magic as text, for someone with so many magic points.
pub open spec fn magic_text(e: &Engine, mid: u16, mp: u16) -> Seq<char> {
    let meta = magic_facts(e, mid);
    let m = Seq::<Seq<char>>::empty()
        .push(json::num("id"@, mid as int))
        .push(json::string("name"@, script::named(&e.texts, mid as int)))
        .push(json::num("mp"@, meta.cost as int))
        .push(json::string("tgt"@, if meta.to_enemy { "enemy"@ } else { "ally"@ }));
    let m = if meta.all {
        let m = m
            .push(json::flag("all"@, true));
        m
    } else {
        m
    };
    let m = if meta.cost > mp {
        let m = m
            .push(json::flag("ok"@, false));
        m
    } else {
        m
    };
    let m = if !meta.in_battle {
        let m = m
            .push(json::flag("battle"@, false));
        m
    } else {
        m
    };
    let m = if !meta.outside {
        let m = m
            .push(json::flag("field"@, false));
        m
    } else {
        m
    };
    json::object(m)
}

/// The magics of a role, among the first `n` places.
pub open spec fn magic_list(e: &Engine, role: int, n: int) -> Seq<Seq<char>>
    decreases n,
{
    if n <= 0 {
        Seq::empty()
    } else {
        let before = magic_list(e, role, n - 1);
        let roles = e.globals.game.player_roles;
        let mid = roles.magic@[n - 1]@[role];
        if mid == 0 {
            before
        } else {
            before.push(magic_text(e, mid, roles.mp@[role]))
        }
    }
}

fn magics_text(engine: &Engine, role: usize) -> (s: String)
    requires
        role < 6,
    ensures
        s@ == json::array(magic_list(engine, role as int, 32)),
{
    let mp: u16 = engine.globals.game.player_roles.mp[role];
    let mut list: Members = Members::new();
    for k in 0..32usize
        invariant
            role < 6,
            mp == engine.globals.game.player_roles.mp@[role as int],
            list.wf(),
            list@ == magic_list(engine, role as int, k as int),
    {
        let mid: u16 = engine.globals.game.player_roles.magic[k][role];
        if mid != 0 {
            let meta: MagicMeta = magic_meta(engine, mid);
            let name: String = script::word_utf8(engine, mid as usize);
            let mut m: Members = Members::new();
            m.num("id", mid as u64);
            m.string("name", name.as_str());
            m.num("mp", meta.cost as u64);
            m.string("tgt", if meta.to_enemy { "enemy" } else { "ally" });
            if meta.all {
                m.flag("all", true);
            }
            if meta.cost > mp {
                m.flag("ok", false);
            }
            if !meta.in_battle {
                m.flag("battle", false);
            }
            if !meta.outside {
                m.flag("field", false);
            }
            let t: String = m.into_object();
            list.put(t.as_str());
        }
    }
    list.into_array()
}

/// The role of party member `i`; the last one for those beyond the table.
pub open spec fn member_role(e: &Engine, i: int) -> int {
    if e.globals.party@[i].player_role < 6 {
        e.globals.party@[i].player_role as int
    } else {
        5
    }
}

/// The experience that the next level takes; 0 behind the last level.
pub open spec fn next_level_exp(e: &Engine, role: int) -> int {
    let level = e.globals.game.player_roles.level@[role];
    if level < 100 {
        e.globals.game.level_up_exp@[level as int] as int
    } else {
        0
    }
}

/// Party member `i` as text.
pub open spec fn party_member(e: &Engine, i: int) -> Seq<char> {
    let g = e.globals;
    let roles = g.game.player_roles;
    let role = member_role(e, i);
    let m = Seq::<Seq<char>>::empty()
        .push(json::num("slot"@, i))
        .push(json::num("role"@, role))
        .push(json::string("name"@, script::named(&e.texts, roles.name@[role] as int)))
        .push(json::num("name_id"@, roles.name@[role] as int))
        .push(json::num("level"@, roles.level@[role] as int))
        .push(json::num("hp"@, roles.hp@[role] as int))
        .push(json::num("max_hp"@, roles.max_hp@[role] as int))
        .push(json::num("mp"@, roles.mp@[role] as int))
        .push(json::num("max_mp"@, roles.max_mp@[role] as int))
        .push(json::num("exp"@, g.exp.primary_exp@[role].exp as int))
        .push(json::num("next_exp"@, next_level_exp(e, role)))
        .push(json::num("attack"@, roles.attack_strength@[role] as int))
        .push(json::num("magic_attack"@, roles.magic_strength@[role] as int))
        .push(json::num("defense"@, roles.defense@[role] as int))
        .push(json::num("dexterity"@, roles.dexterity@[role] as int))
        .push(json::num("flee_rate"@, roles.flee_rate@[role] as int))
        .push(json::pair("screen_pos"@, g.party@[i].x as int, g.party@[i].y as int))
        .push(json::member("equipment"@, json::array(equipment_list(e, role, 6))))
        .push(json::member("magics"@, json::array(magic_list(e, role, 32))));
    let m = status_members(m, g.player_status@[role]@);
    json::object(m)
}

/// The first `n` party members.
pub open spec fn party_list(e: &Engine, n: int) -> Seq<Seq<char>>
    decreases n,
{
    if n <= 0 {
        Seq::empty()
    } else {
        party_list(e, n - 1).push(party_member(e, n - 1))
    }
}

/// The party as text.
pub open spec fn party_text(e: &Engine) -> Seq<char> {
    json::array(
        party_list(
            e,
            if e.globals.max_party_member_index < 5 {
                e.globals.max_party_member_index + 1
            } else {
                5
            },
        ),
    )
}

fn member_text(engine: &Engine, i: usize) -> (s: String)
    requires
        i < 5,
    ensures
        s@ == party_member(engine, i as int),
{
    let g: &Globals = &engine.globals;
    let roles: &PlayerRoles = &g.game.player_roles;
    let role: usize = if g.party[i].player_role < 6 {
        g.party[i].player_role as usize
    } else {
        5
    };
    let name: String = script::word_utf8(engine, roles.name[role] as usize);
    let level: usize = roles.level[role] as usize;
    let next_exp: u16 = if level < 100 {
        g.game.level_up_exp[level]
    } else {
        0
    };
    let equipment: String = equipment_text(engine, role);
    let magics: String = magics_text(engine, role);
    let mut m: Members = Members::new();
    m.num("slot", i as u64);
    m.num("role", role as u64);
    m.string("name", name.as_str());
    m.num("name_id", roles.name[role] as u64);
    m.num("level", roles.level[role] as u64);
    m.num("hp", roles.hp[role] as u64);
    m.num("max_hp", roles.max_hp[role] as u64);
    m.num("mp", roles.mp[role] as u64);
    m.num("max_mp", roles.max_mp[role] as u64);
    m.num("exp", g.exp.primary_exp[role].exp as u64);
    m.num("next_exp", next_exp as u64);
    m.num("attack", roles.attack_strength[role] as u64);
    m.num("magic_attack", roles.magic_strength[role] as u64);
    m.num("defense", roles.defense[role] as u64);
    m.num("dexterity", roles.dexterity[role] as u64);
    m.num("flee_rate", roles.flee_rate[role] as u64);
    m.pair("screen_pos", g.party[i].x as i64, g.party[i].y as i64);
    m.member("equipment", equipment.as_str());
    m.member("magics", magics.as_str());
    append_status(&mut m, &g.player_status[role]);
    m.into_object()
}

/// The party as text.
pub fn party_json(engine: &Engine) -> (s: String)
    ensures
        s@ == party_text(engine),
{
    let n: usize = if engine.globals.max_party_member_index < 5 {
        engine.globals.max_party_member_index as usize + 1
    } else {
        5
    };
    let mut list: Members = Members::new();
    for i in 0..n
        invariant
            n <= 5,
            list.wf(),
            list@ == party_list(engine, i as int),
    {
        let t: String = member_text(engine, i);
        list.put(t.as_str());
    }
    list.into_array()
}

/// What can be done with an item.
pub open spec fn item_tags(flags: u16) -> Seq<Seq<char>> {
    let t = Seq::<Seq<char>>::empty();
    let t = if flags & ITEMFLAG_USABLE != 0 { t.push(json::quoted("use"@)) } else { t };
    let t = if flags & ITEMFLAG_EQUIPABLE != 0 { t.push(json::quoted("eq"@)) } else { t };
    let t = if flags & ITEMFLAG_THROWABLE != 0 { t.push(json::quoted("throw"@)) } else { t };
    let t = if flags & ITEMFLAG_CONSUMING != 0 { t.push(json::quoted("consume"@)) } else { t };
    let t = if flags & ITEMFLAG_APPLY_TO_ALL != 0 { t.push(json::quoted("all"@)) } else { t };
    let t = if flags & ITEMFLAG_SELLABLE != 0 { t.push(json::quoted("sell"@)) } else { t };
    t
}

/// Put a string into a list.
fn put_string(list: &mut Members, s: &str)
    requires
        old(list).wf(),
    ensures
        final(list).wf(),
        final(list)@ == old(list)@.push(json::quoted(s@)),
{
    let mut t: String = String::new();
    json::push_json_string(&mut t, s);
    assert(t@ =~= json::quoted(s@));
    list.put(t.as_str());
}

/// What is held in slot `i` of the inventory, as text.
pub open spec fn item_text(e: &Engine, i: int) -> Seq<char> {
    let slot = e.globals.inventory@[i];
    let objects = e.globals.game.objects@;
    let flags = if slot.item < objects.len() { objects[slot.item as int].data@[6] } else { 0 };
    let m = Seq::<Seq<char>>::empty()
        .push(json::num("item"@, slot.item as int))
        .push(json::string("name"@, script::named(&e.texts, slot.item as int)))
        .push(json::num("amount"@, slot.amount as int));
    let m = if item_tags(flags).len() > 0 {
        let m = m
            .push(json::member("tags"@, json::array(item_tags(flags))));
        m
    } else {
        m
    };
    json::object(m)
}

/// What is held in the first `n` slots of the inventory, as far as it is
/// listed.
pub open spec fn item_list(e: &Engine, n: int) -> Seq<Seq<char>>
    decreases n,
{
    if n <= 0 {
        Seq::empty()
    } else {
        let before = item_list(e, n - 1);
        let slot = e.globals.inventory@[n - 1];
        if slot.item == 0 || slot.amount == 0 || before.len() >= MAX_INV_LIST {
            before
        } else {
            before.push(item_text(e, n - 1))
        }
    }
}

/// The inventory as text.
pub open spec fn inventory_text(e: &Engine) -> Seq<char> {
    json::array(item_list(e, 256))
}

fn slot_text(engine: &Engine, i: usize) -> (s: String)
    requires
        i < 256,
    ensures
        s@ == item_text(engine, i as int),
{
    let slot: Inventory = engine.globals.inventory[i];
    let flags: u16 = if (slot.item as usize) < engine.globals.game.objects.len() {
        engine.globals.game.objects[slot.item as usize].item_flags()
    } else {
        0
    };
    let name: String = script::word_utf8(engine, slot.item as usize);
    let mut list: Members = Members::new();
    let mut tagged: bool = false;
    if flags & ITEMFLAG_USABLE != 0 {
        put_string(&mut list, "use");
        tagged = true;
    }
    if flags & ITEMFLAG_EQUIPABLE != 0 {
        put_string(&mut list, "eq");
        tagged = true;
    }
    if flags & ITEMFLAG_THROWABLE != 0 {
        put_string(&mut list, "throw");
        tagged = true;
    }
    if flags & ITEMFLAG_CONSUMING != 0 {
        put_string(&mut list, "consume");
        tagged = true;
    }
    if flags & ITEMFLAG_APPLY_TO_ALL != 0 {
        put_string(&mut list, "all");
        tagged = true;
    }
    if flags & ITEMFLAG_SELLABLE != 0 {
        put_string(&mut list, "sell");
        tagged = true;
    }
    let tags: String = list.into_array();
    let mut m: Members = Members::new();
    m.num("item", slot.item as u64);
    m.string("name", name.as_str());
    m.num("amount", slot.amount as u64);
    if tagged {
        m.member("tags", tags.as_str());
    }
    m.into_object()
}

/// The inventory as text.
pub fn inventory_json(engine: &Engine) -> (s: String)
    ensures
        s@ == inventory_text(engine),
{
    let mut list: Members = Members::new();
    let mut listed: usize = 0;
    for i in 0..256usize
        invariant
            list.wf(),
            list@ == item_list(engine, i as int),
            listed == list@.len(),
            listed <= MAX_INV_LIST,
    {
        let slot: Inventory = engine.globals.inventory[i];
        if slot.item != 0 && slot.amount != 0 && listed < MAX_INV_LIST {
            let t: String = slot_text(engine, i);
            list.put(t.as_str());
            listed = listed + 1;
        }
    }
    list.into_array()
}

/// The members that every answer starts with.
pub open spec fn answer_head(frame_id: u64) -> Seq<Seq<char>> {
    Seq::<Seq<char>>::empty()
        .push(json::string("status"@, "ok"@))
        .push(json::num("frame_id"@, frame_id as int))
}

/// A whole answer: an object and the end of the line.
pub open spec fn answer(members: Seq<Seq<char>>) -> Seq<char> {
    json::object(members).push('\n')
}

pub(crate) fn start_answer(frame_id: u64) -> (m: Members)
    ensures
        m.wf(),
        m@ == answer_head(frame_id),
{
    let mut m: Members = Members::new();
    m.string("status", "ok");
    m.num("frame_id", frame_id);
    m
}

pub(crate) fn finish_answer(m: Members) -> (s: String)
    requires
        m.wf(),
    ensures
        s@ == answer(m@),
{
    let mut s: String = m.into_object();
    s.push('\n');
    s
}

/// The answer that lists the party.
pub fn build_party_json(engine: &Engine, frame_id: u64) -> (s: String)
    ensures
        s@ == answer(answer_head(frame_id).push(json::member("party"@, party_text(engine)))),
{
    let mut m: Members = start_answer(frame_id);
    let t: String = party_json(engine);
    m.member("party", t.as_str());
    finish_answer(m)
}

/// The answer that lists the inventory.
pub fn build_inventory_json(engine: &Engine, frame_id: u64) -> (s: String)
    ensures
        s@ == answer(answer_head(frame_id).push(json::member("inventory"@, inventory_text(engine)))),
{
    let mut m: Members = start_answer(frame_id);
    let t: String = inventory_json(engine);
    m.member("inventory", t.as_str());
    finish_answer(m)
}

/// The statuses have short names.
pub proof fn law_statuses_have_names()
    ensures
        status_text(0) == "conf"@,
        status_text(1) == "para"@,
        status_text(2) == "sleep"@,
        status_text(3) == "silence"@,
        status_text(4) == "puppet"@,
        status_text(5) == "brave"@,
        status_text(6) == "prot"@,
        status_text(7) == "haste"@,
        status_text(8) == "dual"@,
{
}

/// A status is listed if it lasts, with its number, its name and how long.
pub proof fn law_lasting_statuses_are_listed(values: Seq<u16>, n: int)
    requires
        n >= 0,
    ensures
        status_list(values, 0).len() == 0,
        values[n] == 0 ==> status_list(values, n + 1) == status_list(values, n),
        values[n] != 0 ==> status_list(values, n + 1) == status_list(values, n).push(
            json::object(
                seq![json::num("id"@, n), json::string("name"@, status_text(n)), json::num("t"@, values[n] as int)],
            ),
        ),
{
    let m = Seq::<Seq<char>>::empty().push(json::num("id"@, n)).push(json::string("name"@, status_text(n))).push(
        json::num("t"@, values[n] as int),
    );
    assert(m =~= seq![json::num("id"@, n), json::string("name"@, status_text(n)), json::num("t"@, values[n] as int)]);
}

/// What can be done with an item is told by its properties, each on its own.
pub proof fn law_items_tell_what_they_are_for(flags: u16)
    ensures
        item_tags(flags).contains(json::quoted("use"@)) || flags & 1 == 0,
        flags & 1 == 0 && flags & 2 == 0 && flags & 4 == 0 && flags & 8 == 0 && flags & 16 == 0 && flags & 32 == 0
            ==> item_tags(flags).len() == 0,
        flags & 1 != 0 ==> item_tags(flags)[0] == json::quoted("use"@),
        flags & 1 == 0 && flags & 2 != 0 ==> item_tags(flags)[0] == json::quoted("eq"@),
        flags & 1 == 0 && flags & 2 == 0 && flags & 4 != 0 ==> item_tags(flags)[0] == json::quoted("throw"@),
        flags & 32 != 0 ==> item_tags(flags).last() == json::quoted("sell"@),
        flags & 32 == 0 && flags & 16 != 0 ==> item_tags(flags).last() == json::quoted("all"@),
        flags & 32 == 0 && flags & 16 == 0 && flags & 8 != 0 ==> item_tags(flags).last() == json::quoted("consume"@),
        item_tags(flags).len() == (if flags & 1 != 0 { 1int } else { 0 }) + (if flags & 2 != 0 { 1int } else { 0 }) + (if flags & 4
            != 0 { 1int } else { 0 }) + (if flags & 8 != 0 { 1int } else { 0 }) + (if flags & 16 != 0 { 1int } else { 0 }) + (if flags
            & 32 != 0 { 1int } else { 0 }),
{
    if flags & 1 != 0 {
        assert(item_tags(flags)[0] == json::quoted("use"@));
    }
}

/// What a magic costs and where it can be used is in its object and its record;
/// one that is in no table costs nothing.
pub proof fn law_magics_tell_what_they_cost(e: &Engine, magic: u16)
    ensures
        ({
            let f = magic_facts(e, magic);
            let o = e.globals.game.objects@[magic as int];
            &&& magic < e.globals.game.objects@.len() ==> {
                &&& f.outside <==> o.data@[6] & 1 != 0
                &&& f.in_battle <==> o.data@[6] & 2 != 0
                &&& f.to_enemy <==> o.data@[6] & 8 != 0
                &&& f.all <==> o.data@[6] & 16 != 0
                &&& o.data@[0] < e.globals.game.magics@.len() ==> f.cost == e.globals.game.magics@[o.data@[0] as int].cost_mp
            }
            &&& magic >= e.globals.game.objects@.len() ==> f.cost == 0 && f.in_battle && f.outside
        }),
{
}

/// A member's next level takes what the table says for its level, as far as the
/// table goes.
pub proof fn law_next_level_takes(e: &Engine, role: int)
    ensures
        e.globals.game.player_roles.level@[role] < 100 ==> next_level_exp(e, role)
            == e.globals.game.level_up_exp@[e.globals.game.player_roles.level@[role] as int],
        e.globals.game.player_roles.level@[role] >= 100 ==> next_level_exp(e, role) == 0,
{
}

/// What is held is listed slot by slot: slots without an item or an amount are
/// left out, and the list is not longer than it may be.
pub proof fn law_held_items_are_listed(e: &Engine, n: int)
    requires
        0 <= n < 256,
    ensures
        item_list(e, 0).len() == 0,
        item_list(e, n).len() <= MAX_INV_LIST,
        ({
            let slot = e.globals.inventory@[n];
            &&& slot.item == 0 || slot.amount == 0 ==> item_list(e, n + 1) == item_list(e, n)
            &&& slot.item != 0 && slot.amount != 0 && item_list(e, n).len() < MAX_INV_LIST ==> item_list(e, n + 1) == item_list(
                e,
                n,
            ).push(item_text(e, n))
        }),
    decreases n,
{
    if n > 0 {
        law_held_items_are_listed(e, n - 1);
    }
}

/// What a role wears and knows is listed place by place, without the empty
/// ones.
pub proof fn law_worn_and_known_are_listed(e: &Engine, role: int, n: int)
    requires
        0 <= n,
    ensures
        ({
            let roles = e.globals.game.player_roles;
            &&& n < 6 && roles.equipment@[n]@[role] == 0 ==> equipment_list(e, role, n + 1) == equipment_list(e, role, n)
            &&& n < 6 && roles.equipment@[n]@[role] != 0 ==> equipment_list(e, role, n + 1).len() == equipment_list(e, role, n).len()
                + 1
            &&& n < 32 && roles.magic@[n]@[role] == 0 ==> magic_list(e, role, n + 1) == magic_list(e, role, n)
            &&& n < 32 && roles.magic@[n]@[role] != 0 ==> magic_list(e, role, n + 1) == magic_list(e, role, n).push(
                magic_text(e, roles.magic@[n]@[role], roles.mp@[role]),
            )
        }),
{
}

/// A member of the party is told with its role, its name, its level, its points
/// and what the next level takes, and its strengths.
pub proof fn law_members_are_told(e: &Engine, i: int)
    requires
        0 <= i < 5,
        e.globals.party@[i].player_role < 6,
    ensures
        exists|m: Seq<Seq<char>>|
            {
                let t = e.globals.game.player_roles;
                let r = e.globals.party@[i].player_role as int;
                &&& party_member(e, i) == #[trigger] json::object(m)
                &&& m[0] == json::num("slot"@, i)
                &&& m[1] == json::num("role"@, r)
                &&& m[4] == json::num("level"@, t.level@[r] as int)
                &&& m[5] == json::num("hp"@, t.hp@[r] as int)
                &&& m[6] == json::num("max_hp"@, t.max_hp@[r] as int)
                &&& m[7] == json::num("mp"@, t.mp@[r] as int)
                &&& m[8] == json::num("max_mp"@, t.max_mp@[r] as int)
                &&& m[9] == json::num("exp"@, e.globals.exp.primary_exp@[r].exp as int)
                &&& m[10] == json::num("next_exp"@, next_level_exp(e, r))
                &&& m[11] == json::num("attack"@, t.attack_strength@[r] as int)
                &&& m[12] == json::num("magic_attack"@, t.magic_strength@[r] as int)
                &&& m[13] == json::num("defense"@, t.defense@[r] as int)
                &&& m[14] == json::num("dexterity"@, t.dexterity@[r] as int)
                &&& m[15] == json::num("flee_rate"@, t.flee_rate@[r] as int)
                &&& m[16] == json::pair("screen_pos"@, e.globals.party@[i].x as int, e.globals.party@[i].y as int)
            },
{
    let g = e.globals;
    let roles = g.game.player_roles;
    let role = member_role(e, i);
    let m = Seq::<Seq<char>>::empty()
        .push(json::num("slot"@, i))
        .push(json::num("role"@, role))
        .push(json::string("name"@, script::named(&e.texts, roles.name@[role] as int)))
        .push(json::num("name_id"@, roles.name@[role] as int))
        .push(json::num("level"@, roles.level@[role] as int))
        .push(json::num("hp"@, roles.hp@[role] as int))
        .push(json::num("max_hp"@, roles.max_hp@[role] as int))
        .push(json::num("mp"@, roles.mp@[role] as int))
        .push(json::num("max_mp"@, roles.max_mp@[role] as int))
        .push(json::num("exp"@, g.exp.primary_exp@[role].exp as int))
        .push(json::num("next_exp"@, next_level_exp(e, role)))
        .push(json::num("attack"@, roles.attack_strength@[role] as int))
        .push(json::num("magic_attack"@, roles.magic_strength@[role] as int))
        .push(json::num("defense"@, roles.defense@[role] as int))
        .push(json::num("dexterity"@, roles.dexterity@[role] as int))
        .push(json::num("flee_rate"@, roles.flee_rate@[role] as int))
        .push(json::pair("screen_pos"@, g.party@[i].x as int, g.party@[i].y as int))
        .push(json::member("equipment"@, json::array(equipment_list(e, role, 6))))
        .push(json::member("magics"@, json::array(magic_list(e, role, 32))));
    let m = status_members(m, g.player_status@[role]@);
    assert(party_member(e, i) == json::object(m));
}

/// What is held is told with its number, its name and how many there are.
pub proof fn law_held_items_are_told(e: &Engine, i: int)
    ensures
        exists|m: Seq<Seq<char>>|
            {
                &&& item_text(e, i) == #[trigger] json::object(m)
                &&& m[0] == json::num("item"@, e.globals.inventory@[i].item as int)
                &&& m[1] == json::string("name"@, script::named(&e.texts, e.globals.inventory@[i].item as int))
                &&& m[2] == json::num("amount"@, e.globals.inventory@[i].amount as int)
            },
{
    let slot = e.globals.inventory@[i];
    let objects = e.globals.game.objects@;
    let flags = if slot.item < objects.len() { objects[slot.item as int].data@[6] } else { 0 };
    let m = Seq::<Seq<char>>::empty()
        .push(json::num("item"@, slot.item as int))
        .push(json::string("name"@, script::named(&e.texts, slot.item as int)))
        .push(json::num("amount"@, slot.amount as int));
    let m = if item_tags(flags).len() > 0 {
        let m = m
            .push(json::member("tags"@, json::array(item_tags(flags))));
        m
    } else {
        m
    };
    assert(item_text(e, i) == json::object(m));
}

/// A magic is told with its name, its cost and whom it is for; that it cannot be
/// paid is told where it costs more than there is.
pub proof fn law_magics_are_told(e: &Engine, mid: u16, mp: u16)
    ensures
        exists|m: Seq<Seq<char>>|
            {
                &&& magic_text(e, mid, mp) == #[trigger] json::object(m)
                &&& m[0] == json::num("id"@, mid as int)
                &&& m[2] == json::num("mp"@, magic_facts(e, mid).cost as int)
                &&& m[3] == json::string("tgt"@, if magic_facts(e, mid).to_enemy { "enemy"@ } else { "ally"@ })
                &&& !magic_facts(e, mid).all && magic_facts(e, mid).cost > mp ==> m[4] == json::flag("ok"@, false)
                &&& !magic_facts(e, mid).all && magic_facts(e, mid).cost <= mp && magic_facts(e, mid).in_battle && magic_facts(e, mid).outside ==> m.len() == 4
            },
{
    let meta = magic_facts(e, mid);
    let m = Seq::<Seq<char>>::empty()
        .push(json::num("id"@, mid as int))
        .push(json::string("name"@, script::named(&e.texts, mid as int)))
        .push(json::num("mp"@, meta.cost as int))
        .push(json::string("tgt"@, if meta.to_enemy { "enemy"@ } else { "ally"@ }));
    let m = if meta.all {
        let m = m
            .push(json::flag("all"@, true));
        m
    } else {
        m
    };
    let m = if meta.cost > mp {
        let m = m
            .push(json::flag("ok"@, false));
        m
    } else {
        m
    };
    let m = if !meta.in_battle {
        let m = m
            .push(json::flag("battle"@, false));
        m
    } else {
        m
    };
    let m = if !meta.outside {
        let m = m
            .push(json::flag("field"@, false));
        m
    } else {
        m
    };
    assert(magic_text(e, mid, mp) == json::object(m));
}

} // verus!
