//! What a look at the scripts of event objects and items tells.

use vstd::prelude::*;

use crate::engine::Engine;
use crate::global::ITEMFLAG_USABLE;
use crate::json;
use crate::records::{GameObject, Inventory, ScriptEntry};
use crate::roles::PlayerRoles;
use crate::text;
use crate::ui::Texts;

verus! {

/// The scene that a script leads to, from the `left` entries at `ip`.
pub open spec fn destination_from(entries: Seq<ScriptEntry>, ip: int, left: int) -> Option<u16>
    decreases left,
{
    if left <= 0 || ip >= entries.len() {
        None
    } else if entries[ip].operation == 0x0059 && entries[ip].operand@[0] != 0 {
        Some(entries[ip].operand@[0])
    } else if entries[ip].operation == 0 {
        None
    } else {
        destination_from(entries, ip + 1, left - 1)
    }
}

/// The scene that a script leads to, if one of its first entries changes the
/// scene.
pub open spec fn destination(entries: Seq<ScriptEntry>, script: u16) -> Option<u16> {
    if script == 0 {
        None
    } else {
        destination_from(entries, script as int, 24)
    }
}

/// The scene that a script leads to, if one of its first entries changes the
/// scene.
pub fn script_destination_scene(engine: &Engine, script: u16) -> (r: Option<u16>)
    ensures
        r == destination(engine.globals.game.script_entries@, script),
{
    if script == 0 {
        return None;
    }
    let entries: &Vec<ScriptEntry> = &engine.globals.game.script_entries;
    let mut ip: usize = script as usize;
    let mut left: usize = 24;
    while left > 0
        invariant
            ip + left <= 0x1_0020,
            entries@ == engine.globals.game.script_entries@,
            script != 0,
            destination(entries@, script) == destination_from(entries@, ip as int, left as int),
        decreases left,
    {
        if ip >= entries.len() {
            return None;
        }
        let entry: ScriptEntry = entries[ip];
        if entry.operation == 0x0059 && entry.operand[0] != 0 {
            return Some(entry.operand[0]);
        }
        if entry.operation == 0 {
            return None;
        }
        ip = ip + 1;
        left = left - 1;
    }
    None
}

/// How a script looks when scanned.
#[derive(Clone, Copy, Debug)]
pub struct ScriptRank {
    pub rank: u8,
    pub label: &'static str,
    pub grants_item: Option<u16>,
}

/// What a rank stands for.
pub struct Rank {
    pub rank: int,
    pub label: Seq<char>,
    pub grants_item: Option<u16>,
}

impl View for ScriptRank {
    type V = Rank;

    open spec fn view(&self) -> Rank {
        Rank { rank: self.rank as int, label: self.label@, grants_item: self.grants_item }
    }
}

/// What a scan has seen so far.
#[derive(Clone, Copy, Debug)]
pub struct Seen {
    pub grants_item: Option<u16>,
    pub item: bool,
    pub cash: bool,
    pub battle: bool,
    pub scene: bool,
    pub world: bool,
    pub mild: bool,
    pub dialog: bool,
}

impl Seen {
    pub open spec fn nothing() -> Seen {
        Seen {
            grants_item: None,
            item: false,
            cash: false,
            battle: false,
            scene: false,
            world: false,
            mild: false,
            dialog: false,
        }
    }

    /// The rank of what was seen.
    pub open spec fn ranked(self) -> Rank {
        if self.item || self.cash || self.battle {
            Rank {
                rank: 1,
                label: if self.item {
                    "item"@
                } else if self.battle {
                    "battle"@
                } else {
                    "cash"@
                },
                grants_item: self.grants_item,
            }
        } else if self.world {
            Rank { rank: 2, label: "quest"@, grants_item: None }
        } else if self.scene {
            Rank { rank: 3, label: "scene"@, grants_item: None }
        } else if self.mild && !self.dialog {
            Rank { rank: 4, label: "mild"@, grants_item: None }
        } else if self.dialog || self.mild {
            Rank { rank: 5, label: "dialog"@, grants_item: None }
        } else {
            Rank { rank: 6, label: "none"@, grants_item: None }
        }
    }

    /// What is seen after an entry that neither ends, jumps nor calls.
    pub open spec fn after(self, entry: ScriptEntry) -> Seen {
        let op = entry.operation;
        let a = entry.operand@[0];
        if op == 0x0006 {
            Seen { battle: true, ..self }
        } else if op == 0x001e {
            Seen { cash: true, ..self }
        } else if op == 0x001f {
            Seen { item: true, grants_item: if a != 0 { Some(a) } else { self.grants_item }, ..self }
        } else if op == 0x0020 {
            Seen { item: true, ..self }
        } else if op == 0x0024 || op == 0x0025 || op == 0x0040 || op == 0x0049 {
            Seen { world: true, ..self }
        } else if op == 0x0059 && a != 0 {
            Seen { scene: true, ..self }
        } else if op == 0x003b || op == 0x003c || op == 0x003d || op == 0x003e || op == 0xffff {
            Seen { dialog: true, ..self }
        } else {
            Seen { mild: true, ..self }
        }
    }

    /// What is seen after a call of a script with the given rank.
    pub open spec fn after_call(self, sub: Rank) -> Seen {
        Seen {
            world: self.world || sub.rank <= 2,
            item: self.item || sub.grants_item is Some,
            grants_item: if sub.grants_item is Some { sub.grants_item } else { self.grants_item },
            ..self
        }
    }

    fn look(self, entry: ScriptEntry) -> (r: Seen)
        ensures
            r == self.after(entry),
    {
        let op: u16 = entry.operation;
        let a: u16 = entry.operand[0];
        if op == 0x0006 {
            Seen { battle: true, ..self }
        } else if op == 0x001e {
            Seen { cash: true, ..self }
        } else if op == 0x001f {
            Seen { item: true, grants_item: if a != 0 { Some(a) } else { self.grants_item }, ..self }
        } else if op == 0x0020 {
            Seen { item: true, ..self }
        } else if op == 0x0024 || op == 0x0025 || op == 0x0040 || op == 0x0049 {
            Seen { world: true, ..self }
        } else if op == 0x0059 && a != 0 {
            Seen { scene: true, ..self }
        } else if op == 0x003b || op == 0x003c || op == 0x003d || op == 0x003e || op == 0xffff {
            Seen { dialog: true, ..self }
        } else {
            Seen { mild: true, ..self }
        }
    }

    fn rank(self) -> (r: ScriptRank)
        ensures
            r@ == self.ranked(),
    {
        if self.item || self.cash || self.battle {
            ScriptRank {
                rank: 1,
                label: if self.item {
                    "item"
                } else if self.battle {
                    "battle"
                } else {
                    "cash"
                },
                grants_item: self.grants_item,
            }
        } else if self.world {
            ScriptRank { rank: 2, label: "quest", grants_item: None }
        } else if self.scene {
            ScriptRank { rank: 3, label: "scene", grants_item: None }
        } else if self.mild && !self.dialog {
            ScriptRank { rank: 4, label: "mild", grants_item: None }
        } else if self.dialog || self.mild {
            ScriptRank { rank: 5, label: "dialog", grants_item: None }
        } else {
            ScriptRank { rank: 6, label: "none", grants_item: None }
        }
    }
}

/// The rank of a script whose entry `ip` comes next, with `left` entries to
/// look at. An end ends the scan, a jump is followed, and a call shows what
/// the called script does, to a depth of two calls.
pub open spec fn scanned(entries: Seq<ScriptEntry>, ip: int, left: int, seen: Seen, depth: int) -> Rank
    decreases 3 - depth, left,
{
    if left <= 0 || ip >= entries.len() {
        seen.ranked()
    } else {
        let op = entries[ip].operation;
        let a = entries[ip].operand@[0];
        if op <= 2 {
            seen.ranked()
        } else if op == 3 {
            scanned(entries, if a != 0 { a as int } else { ip + 1 }, left - 1, seen, depth)
        } else if op == 4 {
            if a != 0 && depth < 2 {
                let sub = scanned(entries, a as int, 96, Seen::nothing(), depth + 1);
                if sub.rank <= 1 {
                    sub
                } else {
                    scanned(entries, ip + 1, left - 1, seen.after_call(sub), depth)
                }
            } else {
                scanned(entries, ip + 1, left - 1, seen, depth)
            }
        } else {
            scanned(entries, ip + 1, left - 1, seen.after(entries[ip]), depth)
        }
    }
}

/// The rank of a script.
pub open spec fn script_rank(entries: Seq<ScriptEntry>, script: u16, depth: int) -> Rank {
    if script == 0 {
        Rank { rank: 6, label: "none"@, grants_item: None }
    } else {
        scanned(entries, script as int, 96, Seen::nothing(), depth)
    }
}

/// How a script looks when scanned.
pub fn analyze_script_progress(engine: &Engine, script: u16) -> (r: ScriptRank)
    ensures
        r@ == script_rank(engine.globals.game.script_entries@, script, 0),
{
    analyze_script_progress_depth(&engine.globals.game.script_entries, script, 0)
}

fn analyze_script_progress_depth(entries: &Vec<ScriptEntry>, script: u16, depth: u8) -> (r: ScriptRank)
    requires
        depth <= 2,
    ensures
        r@ == script_rank(entries@, script, depth as int),
    decreases 3 - depth,
{
    if script == 0 {
        return ScriptRank { rank: 6, label: "none", grants_item: None };
    }
    let mut seen: Seen = Seen {
        grants_item: None,
        item: false,
        cash: false,
        battle: false,
        scene: false,
        world: false,
        mild: false,
        dialog: false,
    };
    let mut ip: usize = script as usize;
    let mut left: usize = 96;
    while left > 0 && ip < entries.len()
        invariant
            depth <= 2,
            script != 0,
            left <= 96,
            script_rank(entries@, script, depth as int) == scanned(entries@, ip as int, left as int, seen, depth as int),
        decreases left,
    {
        let entry: ScriptEntry = entries[ip];
        let op: u16 = entry.operation;
        let a: u16 = entry.operand[0];
        if op <= 2 {
            return seen.rank();
        }
        if op == 3 && a != 0 {
            ip = a as usize;
        } else {
            if op == 4 && a != 0 && depth < 2 {
                let sub: ScriptRank = analyze_script_progress_depth(entries, a, depth + 1);
                if sub.rank <= 1 {
                    return sub;
                }
                seen = Seen {
                    world: seen.world || sub.rank <= 2,
                    item: seen.item || sub.grants_item.is_some(),
                    grants_item: if sub.grants_item.is_some() { sub.grants_item } else { seen.grants_item },
                    ..seen
                };
            } else if op > 4 {
                seen = seen.look(entry);
            }
            ip = ip + 1;
        }
        left = left - 1;
    }
    seen.rank()
}

/// Word number `n` as a name; number 0 names nothing.
pub open spec fn named(texts: &Texts, n: int) -> Seq<char> {
    if n == 0 {
        Seq::empty()
    } else {
        texts.word_text(n)
    }
}

/// Word number `n` as a name; number 0 names nothing.
pub fn word_utf8(engine: &Engine, n: usize) -> (s: String)
    ensures
        s@ == named(&engine.texts, n as int),
{
    if n == 0 {
        let s: String = String::new();
        assert(s@ =~= Seq::<char>::empty());
        return s;
    }
    engine.texts.word(n)
}

/// A playable role has the name.
pub open spec fn playable_name(texts: &Texts, roles: &PlayerRoles, name: Seq<char>) -> bool {
    exists|role: int|
        0 <= role < 6 && #[trigger] roles.name@[role] != 0 && texts.word_text(roles.name@[role] as int) == name
}

/// Whether a playable role has the name.
pub fn is_party_or_playable_name(engine: &Engine, name: &str) -> (b: bool)
    ensures
        b == playable_name(&engine.texts, &engine.globals.game.player_roles, name@),
{
    let roles: &PlayerRoles = &engine.globals.game.player_roles;
    for role in 0..6usize
        invariant
            roles == engine.globals.game.player_roles,
            forall|k: int|
                0 <= k < role ==> !(#[trigger] roles.name@[k] != 0 && engine.texts.word_text(roles.name@[k] as int)
                    == name@),
    {
        let id: usize = roles.name[role] as usize;
        if id != 0 {
            let word: String = engine.texts.word(id);
            if json::same_text(word.as_str(), name) {
                assert(roles.name@[role as int] != 0);
                return true;
            }
        }
    }
    false
}

/// The speaker that a line of dialog names: it ends with a colon, and what
/// stands before it is short and no party name.
pub open spec fn speaker(texts: &Texts, roles: &PlayerRoles, line: Seq<char>) -> Option<Seq<char>> {
    if line.len() > 0 && (line.last() == '\u{ff1a}' || line.last() == ':') {
        let name = text::trimmed(line.drop_last());
        if 0 < name.len() <= 12 && !playable_name(texts, roles, name) {
            Some(name)
        } else {
            None
        }
    } else {
        None
    }
}

/// The speaker of a script whose entry `ip` comes next, with `left` entries to
/// look at.
pub open spec fn speaker_from(
    texts: &Texts,
    roles: &PlayerRoles,
    entries: Seq<ScriptEntry>,
    ip: int,
    left: int,
    depth: int,
) -> Option<Seq<char>>
    decreases 4 - depth, left,
{
    if left <= 0 || ip >= entries.len() {
        None
    } else {
        let op = entries[ip].operation;
        let a = entries[ip].operand@[0];
        if op <= 2 {
            None
        } else if op == 3 {
            if a != 0 {
                speaker_from(texts, roles, entries, a as int, left - 1, depth)
            } else {
                None
            }
        } else {
            let here = if op == 4 && a != 0 && depth <= 1 {
                speaker_from(texts, roles, entries, a as int, 64, depth + 1)
            } else if op == 0xffff {
                speaker(texts, roles, texts.msg_text(a as int))
            } else {
                None
            };
            match here {
                Some(name) => Some(name),
                None => speaker_from(texts, roles, entries, ip + 1, left - 1, depth),
            }
        }
    }
}

/// The first speaker that a script names, following jumps, and calls to a
/// depth of two.
pub open spec fn script_speaker(e: &Engine, script: u16) -> Option<Seq<char>> {
    if script == 0 {
        None
    } else {
        speaker_from(
            &e.texts,
            &e.globals.game.player_roles,
            e.globals.game.script_entries@,
            script as int,
            64,
            0,
        )
    }
}

/// The first speaker that the trigger script names, or else the automatic
/// script.
pub open spec fn event_speaker(e: &Engine, trigger_script: u16, auto_script: u16) -> Option<Seq<char>> {
    match script_speaker(e, trigger_script) {
        Some(name) => Some(name),
        None => script_speaker(e, auto_script),
    }
}

/// A text from its characters.
fn text_of(chars: &Vec<char>) -> (s: String)
    ensures
        s@ == chars@,
{
    let mut s: String = String::new();
    assert(s@ =~= chars@.take(0));
    for i in 0..chars.len()
        invariant
            s@ == chars@.take(i as int),
    {
        s.push(chars[i]);
        assert(s@ =~= chars@.take(i + 1));
    }
    assert(chars@.take(chars@.len() as int) =~= chars@);
    s
}

fn speaker_of(engine: &Engine, line: &str) -> (r: Option<String>)
    ensures
        match speaker(&engine.texts, &engine.globals.game.player_roles, line@) {
            Some(name) => r matches Some(s) && s@ == name,
            None => r is None,
        },
{
    let mut chars: Vec<char> = text::chars_of(line);
    if chars.len() == 0 {
        return None;
    }
    let last: char = chars[chars.len() - 1];
    if last != '\u{ff1a}' && last != ':' {
        return None;
    }
    let _ = chars.pop();
    assert(chars@ =~= line@.drop_last());
    let name: Vec<char> = text::trim(&chars);
    if name.len() == 0 || name.len() > 12 {
        return None;
    }
    let s: String = text_of(&name);
    if is_party_or_playable_name(engine, s.as_str()) {
        return None;
    }
    Some(s)
}

/// The first speaker that a script names.
pub fn script_dialog_label(engine: &Engine, script: u16) -> (r: Option<String>)
    ensures
        match script_speaker(engine, script) {
            Some(name) => r matches Some(s) && s@ == name,
            None => r is None,
        },
{
    if script == 0 {
        return None;
    }
    script_dialog_label_depth(engine, script, 0)
}

fn script_dialog_label_depth(engine: &Engine, script: u16, depth: u8) -> (r: Option<String>)
    requires
        depth <= 2,
    ensures
        match speaker_from(
            &engine.texts,
            &engine.globals.game.player_roles,
            engine.globals.game.script_entries@,
            script as int,
            64,
            depth as int,
        ) {
            Some(name) => r matches Some(s) && s@ == name,
            None => r is None,
        },
    decreases 3 - depth,
{
    let entries: &Vec<ScriptEntry> = &engine.globals.game.script_entries;
    let ghost texts = &engine.texts;
    let ghost roles = &engine.globals.game.player_roles;
    let mut ip: usize = script as usize;
    let mut left: usize = 64;
    while left > 0 && ip < entries.len()
        invariant
            depth <= 2,
            left <= 64,
            entries@ == engine.globals.game.script_entries@,
            texts == engine.texts,
            roles == engine.globals.game.player_roles,
            speaker_from(texts, roles, entries@, script as int, 64, depth as int) == speaker_from(
                texts,
                roles,
                entries@,
                ip as int,
                left as int,
                depth as int,
            ),
        decreases left,
    {
        let entry: ScriptEntry = entries[ip];
        let op: u16 = entry.operation;
        let a: u16 = entry.operand[0];
        if op <= 2 {
            return None;
        }
        if op == 3 {
            if a == 0 {
                return None;
            }
            ip = a as usize;
        } else {
            if op == 4 && a != 0 && depth <= 1 {
                let label: Option<String> = script_dialog_label_depth(engine, a, depth + 1);
                if label.is_some() {
                    return label;
                }
            } else if op == 0xffff {
                let line: String = engine.texts.msg(a as usize);
                let label: Option<String> = speaker_of(engine, line.as_str());
                if label.is_some() {
                    return label;
                }
            }
            ip = ip + 1;
        }
        left = left - 1;
    }
    None
}

/// The first speaker that the trigger script names, or else the automatic
/// script.
pub fn event_dialog_label(engine: &Engine, trigger_script: u16, auto_script: u16) -> (r: Option<String>)
    ensures
        match event_speaker(engine, trigger_script, auto_script) {
            Some(name) => r matches Some(s) && s@ == name,
            None => r is None,
        },
{
    let label: Option<String> = script_dialog_label(engine, trigger_script);
    if label.is_some() {
        return label;
    }
    script_dialog_label(engine, auto_script)
}

/// One of the `left` entries at `ip` asks for an event object, before the
/// script ends.
pub open spec fn asks_for(entries: Seq<ScriptEntry>, ip: int, left: int, event_id: u16) -> bool
    decreases left,
{
    if left <= 0 || ip >= entries.len() {
        false
    } else if entries[ip].operation == 0x0081 && entries[ip].operand@[0] == event_id {
        true
    } else if entries[ip].operation == 0 {
        false
    } else {
        asks_for(entries, ip + 1, left - 1, event_id)
    }
}

/// Slot `i` of the inventory holds an item that can be used on an event
/// object.
pub open spec fn usable_on(e: &Engine, i: int, event_id: u16) -> bool {
    let slot = e.globals.inventory@[i];
    let objects = e.globals.game.objects@;
    &&& slot.item != 0 && slot.amount != 0
    &&& slot.item < objects.len()
    &&& objects[slot.item as int].data@[6] & ITEMFLAG_USABLE != 0
    &&& objects[slot.item as int].data@[2] != 0
    &&& asks_for(e.globals.game.script_entries@, objects[slot.item as int].data@[2] as int, 8, event_id)
}

/// The first held item that can be used on an event object, among `n` slots.
pub open spec fn story_item(e: &Engine, event_id: u16, n: int) -> Option<u16>
    decreases n,
{
    if n <= 0 {
        None
    } else {
        match story_item(e, event_id, n - 1) {
            Some(item) => Some(item),
            None => if usable_on(e, n - 1, event_id) {
                Some(e.globals.inventory@[n - 1].item)
            } else {
                None
            },
        }
    }
}

fn script_asks_for(entries: &Vec<ScriptEntry>, script: u16, event_id: u16) -> (b: bool)
    ensures
        b == asks_for(entries@, script as int, 8, event_id),
{
    let mut ip: usize = script as usize;
    let mut left: usize = 8;
    while left > 0
        invariant
            ip + left <= 0x1_0010,
            asks_for(entries@, script as int, 8, event_id) == asks_for(entries@, ip as int, left as int, event_id),
        decreases left,
    {
        if ip >= entries.len() {
            return false;
        }
        let entry: ScriptEntry = entries[ip];
        if entry.operation == 0x0081 && entry.operand[0] == event_id {
            return true;
        }
        if entry.operation == 0 {
            return false;
        }
        ip = ip + 1;
        left = left - 1;
    }
    false
}

/// The first held item that can be used on an event object.
pub fn story_item_for_event(engine: &Engine, event_id: u16) -> (r: Option<u16>)
    ensures
        r == story_item(engine, event_id, 256),
{
    let objects: &Vec<GameObject> = &engine.globals.game.objects;
    let mut i: usize = 0;
    while i < 256
        invariant
            i <= 256,
            objects == engine.globals.game.objects,
            story_item(engine, event_id, i as int) is None,
        decreases 256 - i,
    {
        let slot: Inventory = engine.globals.inventory[i];
        if slot.item != 0 && slot.amount != 0 && (slot.item as usize) < objects.len() {
            let object: GameObject = objects[slot.item as usize];
            let script: u16 = object.item_script_on_use();
            if object.item_flags() & ITEMFLAG_USABLE != 0 && script != 0 && script_asks_for(
                &engine.globals.game.script_entries,
                script,
                event_id,
            ) {
                proof {
                    assert(usable_on(engine, i as int, event_id));
                    lemma_story_item(engine, event_id, i + 1, 256);
                }
                return Some(slot.item);
            }
        }
        assert(!usable_on(engine, i as int, event_id));
        i = i + 1;
    }
    None
}

proof fn lemma_story_item(e: &Engine, event_id: u16, i: int, n: int)
    requires
        0 <= i <= n,
        story_item(e, event_id, i) is Some,
    ensures
        story_item(e, event_id, n) == story_item(e, event_id, i),
    decreases n - i,
{
    if i < n {
        lemma_story_item(e, event_id, i, n - 1);
    }
}

/// A script leads to the scene that the first of its entries to change the
/// scene names, within 24 entries and not behind its end; it leads nowhere
/// exactly if there is no such entry.
pub proof fn law_destination_is_first_change(entries: Seq<ScriptEntry>, script: u16, k: int)
    requires
        script > 0,
        0 <= k < 24,
        script + k < entries.len(),
        entries[script + k].operation == 0x59,
        entries[script + k].operand@[0] != 0,
        forall|i: int|
            0 <= i < k ==> (#[trigger] entries[script + i]).operation != 0 && !(entries[script + i].operation == 0x59
                && entries[script + i].operand@[0] != 0),
    ensures
        destination(entries, script) == Some(entries[script + k].operand@[0]),
{
    lemma_destination(entries, script as int, 24, k);
}

proof fn lemma_destination(entries: Seq<ScriptEntry>, ip: int, left: int, k: int)
    requires
        0 <= ip,
        0 <= k < left,
        ip + k < entries.len(),
        entries[ip + k].operation == 0x59,
        entries[ip + k].operand@[0] != 0,
        forall|i: int|
            0 <= i < k ==> (#[trigger] entries[ip + i]).operation != 0 && !(entries[ip + i].operation == 0x59 && entries[ip
                + i].operand@[0] != 0),
    ensures
        destination_from(entries, ip, left) == Some(entries[ip + k].operand@[0]),
    decreases k,
{
    if k > 0 {
        assert(entries[ip + 0].operation != 0);
        assert forall|i: int| 0 <= i < k - 1 implies (#[trigger] entries[ip + 1 + i]).operation != 0 && !(entries[ip + 1
            + i].operation == 0x59 && entries[ip + 1 + i].operand@[0] != 0) by {
            assert(entries[ip + (i + 1)].operation != 0);
        }
        lemma_destination(entries, ip + 1, left - 1, k - 1);
    }
}

/// Where a script leads is named by one of its first 24 entries, and the script
/// does not end before it.
pub proof fn law_destination_is_named(entries: Seq<ScriptEntry>, script: u16)
    requires
        destination(entries, script) is Some,
    ensures
        script > 0,
        exists|k: int|
            {
                &&& 0 <= k < 24
                &&& script + k < entries.len()
                &&& (#[trigger] entries[script + k]).operation == 0x59
                &&& destination(entries, script) == Some(entries[script + k].operand@[0])
                &&& entries[script + k].operand@[0] != 0
                &&& forall|i: int| 0 <= i < k ==> (#[trigger] entries[script + i]).operation != 0
            },
{
    let k = lemma_destination_named(entries, script as int, 24);
    assert(entries[script + k].operation == 0x59);
}

proof fn lemma_destination_named(entries: Seq<ScriptEntry>, ip: int, left: int) -> (k: int)
    requires
        0 <= ip,
        destination_from(entries, ip, left) is Some,
    ensures
        0 <= k < left,
        ip + k < entries.len(),
        entries[ip + k].operation == 0x59,
        destination_from(entries, ip, left) == Some(entries[ip + k].operand@[0]),
        entries[ip + k].operand@[0] != 0,
        forall|i: int| 0 <= i < k ==> (#[trigger] entries[ip + i]).operation != 0,
    decreases left,
{
    if entries[ip].operation == 0x59 && entries[ip].operand@[0] != 0 {
        0
    } else {
        let k = lemma_destination_named(entries, ip + 1, left - 1);
        assert forall|i: int| 0 <= i < k + 1 implies (#[trigger] entries[ip + i]).operation != 0 by {
            if i > 0 {
                assert(entries[ip + 1 + (i - 1)].operation != 0);
            }
        }
        k + 1
    }
}

/// What counts most in a script: items, battles and cash; then quests; then a
/// change of scene; then other effects; then talk.
pub proof fn law_ranks_go_by_what_counts(s: Seen)
    ensures
        s.ranked().rank == 1 <==> s.item || s.battle || s.cash,
        s.ranked().rank <= 2 <==> s.item || s.battle || s.cash || s.world,
        s.ranked().rank <= 3 <==> s.item || s.battle || s.cash || s.world || s.scene,
        s.ranked().rank == 4 <==> s.ranked().rank > 3 && s.mild && !s.dialog,
        s.ranked().rank == 5 <==> s.ranked().rank > 3 && s.dialog,
        s.ranked().rank == 6 <==> s.ranked().rank > 3 && !s.dialog && !s.mild,
        s.item ==> s.ranked().label == "item"@,
        !s.item && s.battle ==> s.ranked().label == "battle"@,
        !s.item && !s.battle && s.cash ==> s.ranked().label == "cash"@,
        s.ranked().rank == 2 ==> s.ranked().label == "quest"@,
        s.ranked().rank == 3 ==> s.ranked().label == "scene"@,
        s.ranked().rank == 4 ==> s.ranked().label == "mild"@,
        s.ranked().rank == 5 ==> s.ranked().label == "dialog"@,
        s.ranked().rank == 6 ==> s.ranked().label == "none"@,
        s.ranked().rank == 1 ==> s.ranked().grants_item == s.grants_item,
        s.ranked().rank > 1 ==> s.ranked().grants_item is None,
{
}

/// Which entries show what: battles, cash, items given and taken, quests,
/// changes of scene, talk; all others are mild.
pub proof fn law_entries_show(s: Seen, entry: ScriptEntry)
    ensures
        ({
            let op = entry.operation;
            let r = s.after(entry);
            let talk = op == 0x3b || op == 0x3c || op == 0x3d || op == 0x3e || op == 0xffff;
            let quest = op == 0x24 || op == 0x25 || op == 0x40 || op == 0x49;
            let change = op == 0x59 && entry.operand@[0] != 0;
            &&& r.battle <==> s.battle || op == 6
            &&& r.cash <==> s.cash || op == 0x1e
            &&& r.item <==> s.item || op == 0x1f || op == 0x20
            &&& r.world <==> s.world || quest
            &&& r.scene <==> s.scene || change
            &&& r.dialog <==> s.dialog || talk
            &&& r.mild <==> s.mild || !(op == 6 || op == 0x1e || op == 0x1f || op == 0x20 || quest || change || talk)
            &&& op == 0x1f && entry.operand@[0] != 0 ==> r.grants_item == Some(entry.operand@[0])
            &&& op != 0x1f || entry.operand@[0] == 0 ==> r.grants_item == s.grants_item
        }),
{
}

/// How a script is scanned: an end ends it, a jump goes on where it leads, a
/// call of a script with a battle, cash or items counts as that script, and
/// other entries add what they show.
pub proof fn law_scripts_are_scanned(entries: Seq<ScriptEntry>, ip: int, left: int, seen: Seen, depth: int)
    requires
        0 <= ip < entries.len(),
        0 < left,
        0 <= depth < 2,
    ensures
        ({
            let op = entries[ip].operation;
            let a = entries[ip].operand@[0];
            let r = scanned(entries, ip, left, seen, depth);
            &&& op <= 2 ==> r == seen.ranked()
            &&& op == 3 && a != 0 ==> r == scanned(entries, a as int, left - 1, seen, depth)
            &&& op == 4 && a != 0 && script_rank(entries, a, depth + 1).rank <= 1 ==> r == script_rank(entries, a, depth + 1)
            &&& op == 4 && a != 0 && script_rank(entries, a, depth + 1).rank == 2 && left == 1 ==> r.rank <= 2
            &&& op > 4 && left == 1 ==> r == seen.after(entries[ip]).ranked()
        }),
        scanned(entries, ip, 0, seen, depth) == seen.ranked(),
        scanned(entries, entries.len() as int, left, seen, depth) == seen.ranked(),
        script_rank(entries, 0, depth).rank == 6,
{
    reveal_with_fuel(scanned, 3);
}

/// A script asks for an event object if one of its entries does, before it
/// ends.
pub proof fn law_asks_for(entries: Seq<ScriptEntry>, ip: int, left: int, event_id: u16)
    requires
        0 <= ip,
    ensures
        asks_for(entries, ip, left, event_id) <==> exists|k: int|
            {
                &&& 0 <= k < left
                &&& ip + k < entries.len()
                &&& (#[trigger] entries[ip + k]).operation == 0x81
                &&& entries[ip + k].operand@[0] == event_id
                &&& forall|i: int| 0 <= i < k ==> (#[trigger] entries[ip + i]).operation != 0
            },
    decreases left,
{
    if left > 0 && ip < entries.len() {
        law_asks_for(entries, ip + 1, left - 1, event_id);
        let found = |k: int|
            {
                &&& 0 <= k < left
                &&& ip + k < entries.len()
                &&& entries[ip + k].operation == 0x81
                &&& entries[ip + k].operand@[0] == event_id
                &&& forall|i: int| 0 <= i < k ==> (#[trigger] entries[ip + i]).operation != 0
            };
        if entries[ip].operation == 0x81 && entries[ip].operand@[0] == event_id {
            assert(entries[ip + 0].operation == 0x81);
        } else if entries[ip].operation == 0 {
            assert forall|k: int| !#[trigger] found(k) by {
                if found(k) {
                    if k > 0 {
                        assert(entries[ip + 0].operation != 0);
                    } else {
                        assert(entries[ip + k] == entries[ip]);
                    }
                }
            }
            if exists|k: int|
                {
                    &&& 0 <= k < left
                    &&& ip + k < entries.len()
                    &&& (#[trigger] entries[ip + k]).operation == 0x81
                    &&& entries[ip + k].operand@[0] == event_id
                    &&& forall|i: int| 0 <= i < k ==> (#[trigger] entries[ip + i]).operation != 0
                } {
                let k = choose|k: int|
                    {
                        &&& 0 <= k < left
                        &&& ip + k < entries.len()
                        &&& (#[trigger] entries[ip + k]).operation == 0x81
                        &&& entries[ip + k].operand@[0] == event_id
                        &&& forall|i: int| 0 <= i < k ==> (#[trigger] entries[ip + i]).operation != 0
                    };
                assert(found(k));
            }
        } else {
            if asks_for(entries, ip + 1, left - 1, event_id) {
                let k = choose|k: int|
                    {
                        &&& 0 <= k < left - 1
                        &&& ip + 1 + k < entries.len()
                        &&& (#[trigger] entries[ip + 1 + k]).operation == 0x81
                        &&& entries[ip + 1 + k].operand@[0] == event_id
                        &&& forall|i: int| 0 <= i < k ==> (#[trigger] entries[ip + 1 + i]).operation != 0
                    };
                assert(entries[ip + (k + 1)].operation == 0x81);
                assert forall|i: int| 0 <= i < k + 1 implies (#[trigger] entries[ip + i]).operation != 0 by {
                    if i > 0 {
                        assert(entries[ip + 1 + (i - 1)].operation != 0);
                    } else {
                        assert(entries[ip + i] == entries[ip]);
                    }
                }
            }
            if exists|k: int|
                {
                    &&& 0 <= k < left
                    &&& ip + k < entries.len()
                    &&& (#[trigger] entries[ip + k]).operation == 0x81
                    &&& entries[ip + k].operand@[0] == event_id
                    &&& forall|i: int| 0 <= i < k ==> (#[trigger] entries[ip + i]).operation != 0
                } {
                let k = choose|k: int|
                    {
                        &&& 0 <= k < left
                        &&& ip + k < entries.len()
                        &&& (#[trigger] entries[ip + k]).operation == 0x81
                        &&& entries[ip + k].operand@[0] == event_id
                        &&& forall|i: int| 0 <= i < k ==> (#[trigger] entries[ip + i]).operation != 0
                    };
                assert(k > 0);
                assert(entries[ip + 1 + (k - 1)].operation == 0x81);
                assert forall|i: int| 0 <= i < k - 1 implies (#[trigger] entries[ip + 1 + i]).operation != 0 by {
                    assert(entries[ip + (i + 1)].operation != 0);
                }
            }
        }
    }
}

/// The item to use on an event object is the first in the inventory that is
/// held, can be used, and asks for it.
pub proof fn law_story_item_is_first(e: &Engine, event_id: u16, n: int)
    ensures
        story_item(e, event_id, n) is None <==> forall|i: int| 0 <= i < n ==> !#[trigger] usable_on(e, i, event_id),
        story_item(e, event_id, n) matches Some(item) ==> exists|i: int|
            {
                &&& 0 <= i < n
                &&& #[trigger] usable_on(e, i, event_id)
                &&& e.globals.inventory@[i].item == item
                &&& forall|k: int| 0 <= k < i ==> !#[trigger] usable_on(e, k, event_id)
            },
    decreases n,
{
    if n > 0 {
        law_story_item_is_first(e, event_id, n - 1);
        if story_item(e, event_id, n - 1) is None && usable_on(e, n - 1, event_id) {
            assert(usable_on(e, n - 1, event_id));
        }
    }
}

/// An item can be used on an event object if it is held, marked as usable, and
/// one of the first eight entries of its script asks for the event object.
pub proof fn law_usable_on(e: &Engine, i: int, event_id: u16)
    ensures
        ({
            let slot = e.globals.inventory@[i];
            let o = e.globals.game.objects@[slot.item as int];
            usable_on(e, i, event_id) ==> {
                &&& slot.item != 0
                &&& slot.amount > 0
                &&& slot.item < e.globals.game.objects@.len()
                &&& o.data@[6] & 1 != 0
                &&& o.data@[2] != 0
                &&& asks_for(e.globals.game.script_entries@, o.data@[2] as int, 8, event_id)
            }
        }),
{
}

/// A line names its speaker by ending with a colon, behind a name of at most
/// twelve characters that no role of the party has.
pub proof fn law_speakers_end_with_a_colon(texts: &Texts, roles: &PlayerRoles, line: Seq<char>)
    ensures
        speaker(texts, roles, line) matches Some(name) ==> {
            &&& line.len() > 0
            &&& line.last() == ':' || line.last() == '\u{ff1a}'
            &&& name == text::trimmed(line.drop_last())
            &&& 1 <= name.len() <= 12
            &&& forall|r: int| 0 <= r < 6 && #[trigger] roles.name@[r] != 0 ==> texts.word_text(roles.name@[r] as int) != name
        },
        speaker(texts, roles, line) is None && line.len() > 0 && (line.last() == ':' || line.last() == '\u{ff1a}') ==> {
            let name = text::trimmed(line.drop_last());
            name.len() == 0 || name.len() > 12 || exists|r: int|
                0 <= r < 6 && #[trigger] roles.name@[r] != 0 && texts.word_text(roles.name@[r] as int) == name
        },
{
}

/// What a called script shows: a quest or more makes the caller one, and an item
/// that it gives is given.
pub proof fn law_calls_show(s: Seen, sub: Rank)
    ensures
        ({
            let r = s.after_call(sub);
            &&& r.world <==> s.world || sub.rank <= 2
            &&& r.item <==> s.item || sub.grants_item is Some
            &&& sub.grants_item is Some ==> r.grants_item == sub.grants_item
            &&& sub.grants_item is None ==> r.grants_item == s.grants_item
            &&& r.cash == s.cash && r.battle == s.battle && r.scene == s.scene && r.mild == s.mild && r.dialog == s.dialog
        }),
{
}

/// Who speaks in a script: whoever its first line with a speaker names. Jumps are
/// followed, an end ends the search, and other entries are passed.
pub proof fn law_first_speaker_counts(
    texts: &Texts,
    roles: &PlayerRoles,
    entries: Seq<ScriptEntry>,
    ip: int,
    left: int,
    depth: int,
)
    requires
        0 <= ip < entries.len(),
        0 < left,
        0 <= depth <= 2,
    ensures
        ({
            let op = entries[ip].operation;
            let a = entries[ip].operand@[0] as int;
            let r = speaker_from(texts, roles, entries, ip, left, depth);
            &&& op <= 2 ==> r is None
            &&& op == 3 && a != 0 ==> r == speaker_from(texts, roles, entries, a, left - 1, depth)
            &&& op == 3 && a == 0 ==> r is None
            &&& op == 0xffff && speaker(texts, roles, texts.msg_text(a)) is Some ==> r == speaker(texts, roles, texts.msg_text(a))
            &&& op == 0xffff && speaker(texts, roles, texts.msg_text(a)) is None ==> r == speaker_from(
                texts,
                roles,
                entries,
                ip + 1,
                left - 1,
                depth,
            )
            &&& op > 4 && op != 0xffff ==> r == speaker_from(texts, roles, entries, ip + 1, left - 1, depth)
        }),
        speaker_from(texts, roles, entries, ip, 0, depth) is None,
{
}

/// Who speaks at an event object: whom its trigger script names, or else its
/// automatic script.
pub proof fn law_trigger_script_speaks_first(e: &Engine, trigger: u16, auto: u16)
    ensures
        script_speaker(e, trigger) is Some ==> event_speaker(e, trigger, auto) == script_speaker(e, trigger),
        script_speaker(e, trigger) is None ==> event_speaker(e, trigger, auto) == script_speaker(e, auto),
        script_speaker(e, 0) is None,
{
}

} // verus!
