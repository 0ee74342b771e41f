//! The party: health, poisons, equipment effects, magic, status and levels.

use vstd::prelude::*;

use crate::casts;
use crate::global::{
    Globals, BODYPART_HAND, BODYPART_WEAR, LOAD_GLOBAL_DATA, LOAD_PLAYER_SPRITE, LOAD_SCENE, STATUS_CONFUSED,
    STATUS_DUALATTACK, STATUS_PARALYZED, STATUS_PUPPET, STATUS_SILENCE, STATUS_SLEEP,
};
use crate::gamedata::GameData;
use crate::random;
use crate::random::Rng;
use crate::records::{
    Experience, GameObject, Party, PoisonStatus, MAX_PLAYER_MAGICS, MAX_POISONS,
};
use crate::roles::{AllExperience, PlayerRoles};

verus! {

/// A statistic that equipment adds to.
pub enum Stat {
    AttackStrength,
    MagicStrength,
    Defense,
    Dexterity,
    FleeRate,
    PoisonResistance,
    ElementalResistance(usize),
}

impl Stat {
    /// The statistic's value for a role in a table.
    pub open spec fn of(self, roles: PlayerRoles, role: int) -> u16 {
        match self {
            Stat::AttackStrength => roles.attack_strength@[role],
            Stat::MagicStrength => roles.magic_strength@[role],
            Stat::Defense => roles.defense@[role],
            Stat::Dexterity => roles.dexterity@[role],
            Stat::FleeRate => roles.flee_rate@[role],
            Stat::PoisonResistance => roles.poison_resistance@[role],
            Stat::ElementalResistance(attrib) => roles.elemental_resistance@[attrib as int]@[role],
        }
    }
}

/// What a health or magic value becomes when `delta` is added to it: 0 if the
/// sum, taken as a signed word, is negative, and never more than `max`.
pub open spec fn changed_points(points: u16, delta: i16, max: u16) -> int {
    let sum = (points + delta) % 0x1_0000;
    if sum >= 0x8000 {
        0
    } else if sum < max {
        sum
    } else {
        max as int
    }
}

/// The first of the members from `from` on, up to number `last`, that plays
/// `role`; `last + 1` if there is none.
pub open spec fn member_of_role(party: Seq<Party>, role: u16, from: int, last: int) -> int
    decreases last + 1 - from,
{
    if from > last || party[from].player_role == role {
        from
    } else {
        member_of_role(party, role, from + 1, last)
    }
}

/// The first row from `from` on whose poison for member `idx` is none; 16 if
/// there is no such row.
pub open spec fn poison_end(table: Seq<[PoisonStatus; 5]>, idx: int, from: int) -> int
    decreases 16 - from,
{
    if from >= 16 || table[from]@[idx].poison_id == 0 {
        from
    } else {
        poison_end(table, idx, from + 1)
    }
}

/// The poisons among the first `n` of member `idx` whose level is below 99,
/// in order.
pub open spec fn curable(table: Seq<[PoisonStatus; 5]>, objects: Seq<GameObject>, idx: int, n: int) -> Seq<PoisonStatus>
    decreases n,
{
    if n <= 0 {
        Seq::empty()
    } else if objects[table[n - 1]@[idx].poison_id as int].data@[0] < 99 {
        curable(table, objects, idx, n - 1).push(table[n - 1]@[idx])
    } else {
        curable(table, objects, idx, n - 1)
    }
}

/// `table` is `before` with the column of member `idx` replaced: row `i` of
/// it is `column[i]`.
pub open spec fn column_replaced(
    before: Seq<[PoisonStatus; 5]>,
    table: Seq<[PoisonStatus; 5]>,
    idx: int,
    column: Seq<PoisonStatus>,
) -> bool {
    forall|i: int, j: int|
        0 <= i < 16 && 0 <= j < 5 ==> #[trigger] table[i]@[j] == if j == idx {
            column[i]
        } else {
            before[i]@[j]
        }
}

/// The first of the magic slots from `from` on in which `role` has `magic`;
/// 32 if there is none.
pub open spec fn magic_slot(magics: Seq<[u16; 6]>, role: int, magic: u16, from: int) -> int
    decreases 32 - from,
{
    if from >= 32 || magics[from]@[role] == magic {
        from
    } else {
        magic_slot(magics, role, magic, from + 1)
    }
}

/// `magics` is `before` with the slot of `role` set to `magic`.
pub open spec fn magic_set(before: Seq<[u16; 6]>, magics: Seq<[u16; 6]>, role: int, slot: int, magic: u16) -> bool {
    forall|i: int, j: int|
        0 <= i < 32 && 0 <= j < 6 ==> #[trigger] magics[i]@[j] == if i == slot && j == role {
            magic
        } else {
            before[i]@[j]
        }
}

/// `table` is `before` with one status counter set.
pub open spec fn status_set(before: Seq<[u16; 9]>, table: Seq<[u16; 9]>, role: int, status_id: int, rounds: u16) -> bool {
    forall|i: int, j: int|
        0 <= i < 6 && 0 <= j < 9 ==> #[trigger] table[i]@[j] == if i == role && j == status_id {
            rounds
        } else {
            before[i]@[j]
        }
}

/// What a status counter becomes when a status is set for some rounds.
pub open spec fn status_after(status_id: usize, hp: u16, current: u16, rounds: u16) -> u16 {
    if status_id <= 3 {
        if current == 0 {
            rounds
        } else {
            current
        }
    } else if status_id == 4 {
        if hp == 0 && current < rounds {
            rounds
        } else {
            current
        }
    } else if hp != 0 && current < rounds {
        rounds
    } else {
        current
    }
}

/// The statistics that grow with a level.
pub struct Growth {
    pub max_hp: int,
    pub max_mp: int,
    pub attack_strength: int,
    pub magic_strength: int,
    pub defense: int,
    pub dexterity: int,
    pub flee_rate: int,
}

impl Growth {
    /// What a role has of them.
    pub open spec fn of(roles: PlayerRoles, role: int) -> Growth {
        Growth {
            max_hp: roles.max_hp@[role] as int,
            max_mp: roles.max_mp@[role] as int,
            attack_strength: roles.attack_strength@[role] as int,
            magic_strength: roles.magic_strength@[role] as int,
            defense: roles.defense@[role] as int,
            dexterity: roles.dexterity@[role] as int,
            flee_rate: roles.flee_rate@[role] as int,
        }
    }
}

/// The generator's state after `n` draws, the wall clock showing `clock[i]` at
/// draw number `i`.
pub open spec fn seed_after(seed: int, clock: Seq<i32>, n: int) -> int
    decreases n,
{
    if n <= 0 {
        seed
    } else {
        random::next_seed(seed_after(seed, clock, n - 1), clock[n - 1] as int)
    }
}

/// What draw number `n` makes of the range from 0 to `to`.
#[verifier::opaque]
pub open spec fn nth_draw(seed: int, clock: Seq<i32>, n: int, to: int) -> int {
    random::scaled_draw(0, to, random::draw_of(seed_after(seed, clock, n + 1)))
}

/// The statistics after `levels` levels, six draws each, modulo 2^16.
pub open spec fn grown(start: Growth, seed: int, clock: Seq<i32>, levels: int) -> Growth
    decreases levels,
{
    if levels <= 0 {
        start
    } else {
        let s = grown(start, seed, clock, levels - 1);
        let d = 6 * (levels - 1);
        Growth {
            max_hp: (s.max_hp + 10 + nth_draw(seed, clock, d, 7)) % 0x1_0000,
            max_mp: (s.max_mp + 8 + nth_draw(seed, clock, d + 1, 5)) % 0x1_0000,
            attack_strength: (s.attack_strength + 4 + nth_draw(seed, clock, d + 2, 1)) % 0x1_0000,
            magic_strength: (s.magic_strength + 4 + nth_draw(seed, clock, d + 3, 1)) % 0x1_0000,
            defense: (s.defense + 2 + nth_draw(seed, clock, d + 4, 1)) % 0x1_0000,
            dexterity: (s.dexterity + 2 + nth_draw(seed, clock, d + 5, 1)) % 0x1_0000,
            flee_rate: (s.flee_rate + 2) % 0x1_0000,
        }
    }
}

/// A value, at most 999.
pub open spec fn capped(v: int) -> u16 {
    (if v < 999 { v } else { 999 }) as u16
}

/// Draws do not depend on clock readings that come after them.
proof fn lemma_seed_after_prefix(seed: int, a: Seq<i32>, b: Seq<i32>, n: int)
    requires
        0 <= n <= a.len(),
        n <= b.len(),
        forall|i: int| 0 <= i < n ==> #[trigger] a[i] == b[i],
    ensures
        seed_after(seed, a, n) == seed_after(seed, b, n),
    decreases n,
{
    if n > 0 {
        lemma_seed_after_prefix(seed, a, b, n - 1);
        assert(a[n - 1] == b[n - 1]);
    }
}

proof fn lemma_nth_draw_prefix(seed: int, a: Seq<i32>, b: Seq<i32>, n: int, to: int)
    requires
        0 <= n < a.len(),
        n < b.len(),
        forall|i: int| 0 <= i <= n ==> #[trigger] a[i] == b[i],
    ensures
        nth_draw(seed, a, n, to) == nth_draw(seed, b, n, to),
{
    reveal(nth_draw);
    lemma_seed_after_prefix(seed, a, b, n + 1);
}

/// Levels gained do not depend on clock readings that come after them.
proof fn lemma_grown_prefix(start: Growth, seed: int, a: Seq<i32>, b: Seq<i32>, levels: int)
    requires
        0 <= levels,
        6 * levels <= a.len() <= b.len(),
        forall|i: int| 0 <= i < a.len() ==> #[trigger] a[i] == b[i],
    ensures
        grown(start, seed, a, levels) == grown(start, seed, b, levels),
    decreases levels,
{
    if levels > 0 {
        lemma_grown_prefix(start, seed, a, b, levels - 1);
        let d = 6 * (levels - 1);
        lemma_nth_draw_prefix(seed, a, b, d, 7);
        lemma_nth_draw_prefix(seed, a, b, d + 1, 5);
        lemma_nth_draw_prefix(seed, a, b, d + 2, 1);
        lemma_nth_draw_prefix(seed, a, b, d + 3, 1);
        lemma_nth_draw_prefix(seed, a, b, d + 4, 1);
        lemma_nth_draw_prefix(seed, a, b, d + 5, 1);
    }
}

/// Draw a number from 0 to `to`, recording what the wall clock showed.
fn recorded_draw(rng: &mut Rng, to: i32, Ghost(seed): Ghost<int>, clock: &mut Ghost<Seq<i32>>) -> (v: u16)
    requires
        0 < to <= 7,
        old(rng).seed == seed_after(seed, old(clock)@, old(clock)@.len() as int),
    ensures
        final(clock)@.len() == old(clock)@.len() + 1,
        clock_prefix(old(clock)@, final(clock)@),
        final(rng).seed == seed_after(seed, final(clock)@, final(clock)@.len() as int),
        v == nth_draw(seed, final(clock)@, old(clock)@.len() as int, to as int),
        v <= to,
{
    let before: i32 = rng.seed;
    proof {
        reveal(nth_draw);
    }
    let v: i32 = random::random_long(rng, 0, to);
    proof {
        let t = choose|t: i32| #[trigger] random::next_seed(before as int, t as int) == rng.seed;
        let longer = clock@.push(t);
        lemma_seed_after_prefix(seed, clock@, longer, clock@.len() as int);
        *clock = Ghost(longer);
    }
    v as u16
}

/// The statistics that grow with a level, as they are worked on.
#[derive(Clone, Copy)]
struct LevelStats {
    max_hp: u16,
    max_mp: u16,
    attack_strength: u16,
    magic_strength: u16,
    defense: u16,
    dexterity: u16,
    flee_rate: u16,
}

impl LevelStats {
    spec fn growth(self) -> Growth {
        Growth {
            max_hp: self.max_hp as int,
            max_mp: self.max_mp as int,
            attack_strength: self.attack_strength as int,
            magic_strength: self.magic_strength as int,
            defense: self.defense as int,
            dexterity: self.dexterity as int,
            flee_rate: self.flee_rate as int,
        }
    }
}

/// `longer` starts with `shorter`.
spec fn clock_prefix(shorter: Seq<i32>, longer: Seq<i32>) -> bool {
    &&& shorter.len() <= longer.len()
    &&& forall|i: int| 0 <= i < shorter.len() ==> #[trigger] shorter[i] == longer[i]
}

fn cap_999(v: u16) -> (c: u16)
    ensures
        c == capped(v as int),
{
    if v < 999 {
        v
    } else {
        999
    }
}

/// Add to a statistic, modulo 2^16.
fn gain(stat: u16, points: u16) -> (r: u16)
    ensures
        r == (stat + points) % 0x1_0000,
{
    stat.wrapping_add(points)
}

/// Gain one level.
#[verifier::rlimit(30)]
fn level_once(
    rng: &mut Rng,
    stats: LevelStats,
    Ghost(start): Ghost<Growth>,
    Ghost(seed): Ghost<int>,
    clock: &mut Ghost<Seq<i32>>,
    Ghost(n): Ghost<int>,
) -> (after: LevelStats)
    requires
        0 <= n,
        old(clock)@.len() == 6 * n,
        old(rng).seed == seed_after(seed, old(clock)@, 6 * n),
        grown(start, seed, old(clock)@, n) == stats.growth(),
    ensures
        final(clock)@.len() == 6 * (n + 1),
        final(rng).seed == seed_after(seed, final(clock)@, 6 * (n + 1)),
        grown(start, seed, final(clock)@, n + 1) == after.growth(),
{
    let ghost c0 = clock@;
    let d0: u16 = recorded_draw(rng, 7, Ghost(seed), clock);
    let ghost c1 = clock@;
    let d1: u16 = recorded_draw(rng, 5, Ghost(seed), clock);
    let ghost c2 = clock@;
    let d2: u16 = recorded_draw(rng, 1, Ghost(seed), clock);
    let ghost c3 = clock@;
    let d3: u16 = recorded_draw(rng, 1, Ghost(seed), clock);
    let ghost c4 = clock@;
    let d4: u16 = recorded_draw(rng, 1, Ghost(seed), clock);
    let ghost c5 = clock@;
    let d5: u16 = recorded_draw(rng, 1, Ghost(seed), clock);
    let ghost c6 = clock@;
    proof {
        assert(clock_prefix(c0, c6) && clock_prefix(c1, c6) && clock_prefix(c2, c6) && clock_prefix(c3, c6) && clock_prefix(
            c4,
            c6,
        ) && clock_prefix(c5, c6));
        lemma_nth_draw_prefix(seed, c1, c6, 6 * n, 7);
        lemma_nth_draw_prefix(seed, c2, c6, 6 * n + 1, 5);
        lemma_nth_draw_prefix(seed, c3, c6, 6 * n + 2, 1);
        lemma_nth_draw_prefix(seed, c4, c6, 6 * n + 3, 1);
        lemma_nth_draw_prefix(seed, c5, c6, 6 * n + 4, 1);
        lemma_grown_prefix(start, seed, c0, c6, n);
    }
    LevelStats {
        max_hp: gain(stats.max_hp, 10 + d0),
        max_mp: gain(stats.max_mp, 8 + d1),
        attack_strength: gain(stats.attack_strength, 4 + d2),
        magic_strength: gain(stats.magic_strength, 4 + d3),
        defense: gain(stats.defense, 2 + d4),
        dexterity: gain(stats.dexterity, 2 + d5),
        flee_rate: gain(stats.flee_rate, 2),
    }
}

impl Globals {
    /// A search for `role` ends inside the party table.
    pub open spec fn role_findable(&self, role: u16) -> bool {
        self.max_party_member_index < 5 || exists|i: int| 0 <= i < 5 && (#[trigger] self.party@[i]).player_role == role
    }

    /// The party member who plays `role`, if there is one.
    pub open spec fn member(&self, role: u16) -> Option<int> {
        let i = member_of_role(self.party@, role, 0, self.max_party_member_index as int);
        if i <= self.max_party_member_index {
            Some(i)
        } else {
            None
        }
    }

    /// The sum of a statistic over the first `n` equipment effects.
    pub open spec fn effects_sum(&self, stat: Stat, role: int, n: int) -> int
        decreases n,
    {
        if n <= 0 {
            0
        } else {
            self.effects_sum(stat, role, n - 1) + stat.of(self.equipment_effect@[n - 1], role)
        }
    }

    /// A role's statistic with all equipment effects, modulo 2^16.
    pub open spec fn total(&self, stat: Stat, role: int) -> int {
        (stat.of(self.game.player_roles, role) + self.effects_sum(stat, role, 7)) % 0x1_0000
    }

    /// The last of the first `n` effects that is not 0 replaces the base.
    pub open spec fn last_battle_sprite(&self, role: int, n: int) -> u16
        decreases n,
    {
        if n <= 0 {
            self.game.player_roles.sprite_num_in_battle@[role]
        } else if self.equipment_effect@[n - 1].sprite_num_in_battle@[role] != 0 {
            self.equipment_effect@[n - 1].sprite_num_in_battle@[role]
        } else {
            self.last_battle_sprite(role, n - 1)
        }
    }

    /// The last of the first `n` effects that is not 0 replaces the base.
    pub open spec fn last_cooperative_magic(&self, role: int, n: int) -> u16
        decreases n,
    {
        if n <= 0 {
            self.game.player_roles.cooperative_magic@[role]
        } else if self.equipment_effect@[n - 1].cooperative_magic@[role] != 0 {
            self.equipment_effect@[n - 1].cooperative_magic@[role]
        } else {
            self.last_cooperative_magic(role, n - 1)
        }
    }

    /// Change the health and magic points of a role that is alive; returns
    /// whether anything changed.
    pub fn increase_hp_mp(&mut self, role: usize, hp: i16, mp: i16) -> (changed: bool)
        requires
            role < 6,
        ensures
            ({
                let before = old(self).game.player_roles;
                let after = final(self).game.player_roles;
                if before.hp@[role as int] == 0 {
                    !changed && *final(self) == *old(self)
                } else {
                    let new_hp = changed_points(before.hp@[role as int], hp, before.max_hp@[role as int]) as u16;
                    let new_mp = changed_points(before.mp@[role as int], mp, before.max_mp@[role as int]) as u16;
                    &&& after.hp@ == before.hp@.update(role as int, new_hp)
                    &&& after.mp@ == before.mp@.update(role as int, new_mp)
                    &&& changed == (new_hp != before.hp@[role as int] || new_mp != before.mp@[role as int])
                    &&& *final(self) == (Globals {
                        game: GameData { player_roles: PlayerRoles { hp: after.hp, mp: after.mp, ..before }, ..old(self).game },
                        ..*old(self)
                    })
                }
            }),
    {
        let orig_hp: u16 = self.game.player_roles.hp[role];
        let orig_mp: u16 = self.game.player_roles.mp[role];
        if orig_hp == 0 {
            return false;
        }
        let new_hp: u16 = Self::change_points(orig_hp, hp, self.game.player_roles.max_hp[role]);
        let new_mp: u16 = Self::change_points(orig_mp, mp, self.game.player_roles.max_mp[role]);
        self.game.player_roles.hp[role] = new_hp;
        self.game.player_roles.mp[role] = new_mp;
        orig_hp != new_hp || orig_mp != new_mp
    }

    fn change_points(points: u16, delta: i16, max: u16) -> (v: u16)
        ensures
            v == changed_points(points, delta, max),
    {
        proof {
            casts::lemma_i16_as_u16(delta);
        }
        let sum: u16 = points.wrapping_add(delta as u16);
        proof {
            casts::lemma_u16_as_i16(sum);
        }
        if (sum as i16) < 0 {
            0
        } else if sum < max {
            sum
        } else {
            max
        }
    }

    proof fn lemma_member_bounds(party: Seq<Party>, role: u16, from: int, last: int)
        requires
            0 <= from <= last + 1,
        ensures
            from <= member_of_role(party, role, from, last) <= last + 1,
            forall|i: int| from <= i < member_of_role(party, role, from, last) ==> (#[trigger] party[i]).player_role != role,
            member_of_role(party, role, from, last) <= last ==> party[member_of_role(party, role, from, last)].player_role == role,
        decreases last + 1 - from,
    {
        if from <= last && party[from].player_role != role {
            Self::lemma_member_bounds(party, role, from + 1, last);
        }
    }

    /// The index of the party member who plays `role`.
    pub fn party_index_of_role(&self, role: u16) -> (r: Option<usize>)
        requires
            self.role_findable(role),
        ensures
            r is Some <==> self.member(role) is Some,
            r matches Some(i) ==> i == self.member(role)->0 && i < 5 && self.party@[i as int].player_role == role,
    {
        let last: usize = self.max_party_member_index as usize;
        let mut i: usize = 0;
        proof {
            Self::lemma_member_bounds(self.party@, role, 0, last as int);
        }
        while i <= last
            invariant
                self.role_findable(role),
                last == self.max_party_member_index,
                i <= 5,
                i <= last + 1,
                forall|k: int| 0 <= k < i ==> (#[trigger] self.party@[k]).player_role != role,
                member_of_role(self.party@, role, i as int, last as int) == member_of_role(self.party@, role, 0, last as int),
            decreases last + 1 - i,
        {
            assert(i < 5) by {
                if last >= 5 {
                    let k = choose|k: int| 0 <= k < 5 && (#[trigger] self.party@[k]).player_role == role;
                    assert(i <= k);
                }
            }
            if self.party[i].player_role == role {
                return Some(i);
            }
            i = i + 1;
        }
        None
    }

    /// Remove the effects of a body part's equipment from a role.
    pub fn remove_equipment_effect(&mut self, role: u16, equip_part: usize)
        requires
            role < 6,
            equip_part < 7,
            equip_part == BODYPART_WEAR ==> {
                &&& old(self).role_findable(role)
                &&& old(self).member(role) matches Some(idx) ==> forall|i: int|
                    0 <= i < poison_end(old(self).poison_status@, idx, 0) ==> (#[trigger] old(
                        self,
                    ).poison_status@[i])@[idx].poison_id < old(self).game.objects@.len()
            },
        ensures
            forall|e: int|
                0 <= e < 7 && e != equip_part ==> #[trigger] final(self).equipment_effect@[e] == old(self).equipment_effect@[e],
            forall|k: int|
                0 <= k < 75 ==> #[trigger] final(self).equipment_effect@[equip_part as int].row(k) == old(
                    self,
                ).equipment_effect@[equip_part as int].row(k).update(role as int, 0),
            if equip_part == BODYPART_HAND {
                status_set(old(self).player_status@, final(self).player_status@, role as int, STATUS_DUALATTACK as int, 0)
            } else {
                final(self).player_status == old(self).player_status
            },
            if equip_part == BODYPART_WEAR && old(self).member(role) is Some {
                let idx = old(self).member(role)->0;
                let left = curable(
                    old(self).poison_status@,
                    old(self).game.objects@,
                    idx,
                    poison_end(old(self).poison_status@, idx, 0),
                );
                column_replaced(
                    old(self).poison_status@,
                    final(self).poison_status@,
                    idx,
                    Seq::new(16, |i: int| if i < left.len() { left[i] } else { PoisonStatus::none() }),
                )
            } else {
                final(self).poison_status == old(self).poison_status
            },
            *final(self) == (Globals {
                equipment_effect: final(self).equipment_effect,
                player_status: final(self).player_status,
                poison_status: final(self).poison_status,
                ..*old(self)
            }),
    {
        self.equipment_effect[equip_part].clear_role_column(role as usize);
        if equip_part == BODYPART_HAND {
            self.player_status[role as usize][STATUS_DUALATTACK] = 0;
        } else if equip_part == BODYPART_WEAR {
            assert(self.member(role) == old(self).member(role));
            match self.party_index_of_role(role) {
                Some(idx) => {
                    self.remove_curing_effect(idx);
                },
                None => {},
            }
        }
    }

    /// Drop the poisons of a member that stand for worn equipment, and those
    /// after the first gap; close the gaps left.
    fn remove_curing_effect(&mut self, idx: usize)
        requires
            idx < 5,
            forall|i: int|
                0 <= i < poison_end(old(self).poison_status@, idx as int, 0) ==> (#[trigger] old(
                    self,
                ).poison_status@[i])@[idx as int].poison_id < old(self).game.objects@.len(),
        ensures
            ({
                let left = curable(
                    old(self).poison_status@,
                    old(self).game.objects@,
                    idx as int,
                    poison_end(old(self).poison_status@, idx as int, 0),
                );
                column_replaced(
                    old(self).poison_status@,
                    final(self).poison_status@,
                    idx as int,
                    Seq::new(16, |i: int| if i < left.len() { left[i] } else { PoisonStatus::none() }),
                )
            }),
            *final(self) == (Globals { poison_status: final(self).poison_status, ..*old(self) }),
    {
        let ghost table = self.poison_status@;
        let ghost objects = self.game.objects@;
        let ghost end = poison_end(table, idx as int, 0);
        let mut j: usize = 0;
        let mut i: usize = 0;
        while i < MAX_POISONS
            invariant
                idx < 5,
                table == old(self).poison_status@,
                objects == old(self).game.objects@,
                end == poison_end(table, idx as int, 0) == poison_end(table, idx as int, i as int),
                forall|k: int| 0 <= k < end ==> (#[trigger] table[k])@[idx as int].poison_id < objects.len(),
                i <= 16,
                j <= i,
                j == curable(table, objects, idx as int, i as int).len(),
                *self == (Globals { poison_status: self.poison_status, ..*old(self) }),
                forall|a: int, b: int|
                    0 <= a < 16 && 0 <= b < 5 && b != idx ==> #[trigger] self.poison_status@[a]@[b] == table[a]@[b],
                forall|a: int| 0 <= a < j ==> (#[trigger] self.poison_status@[a])@[idx as int] == curable(table, objects, idx as int, i as int)[a],
                forall|a: int| i <= a < 16 ==> (#[trigger] self.poison_status@[a])@[idx as int] == table[a]@[idx as int],
            ensures
                i == end,
                j <= 16,
                j == curable(table, objects, idx as int, end).len(),
                *self == (Globals { poison_status: self.poison_status, ..*old(self) }),
                forall|a: int, b: int|
                    0 <= a < 16 && 0 <= b < 5 && b != idx ==> #[trigger] self.poison_status@[a]@[b] == table[a]@[b],
                forall|a: int| 0 <= a < j ==> (#[trigger] self.poison_status@[a])@[idx as int] == curable(table, objects, idx as int, end)[a],
            decreases 16 - i,
        {
            let w: u16 = self.poison_status[i][idx].poison_id;
            assert(table[i as int]@[idx as int].poison_id == w);
            if w == 0 {
                break;
            }
            proof {
                Self::lemma_poison_end(table, idx as int, i as int + 1);
            }
            if self.game.objects[w as usize].poison_level() < 99 {
                self.poison_status[j][idx] = self.poison_status[i][idx];
                j = j + 1;
            }
            i = i + 1;
        }
        let none: PoisonStatus = PoisonStatus::default();
        let ghost left = curable(table, objects, idx as int, end);
        while j < MAX_POISONS
            invariant
                idx < 5,
                none == PoisonStatus::none(),
                left.len() <= j <= 16,
                *self == (Globals { poison_status: self.poison_status, ..*old(self) }),
                forall|a: int, b: int|
                    0 <= a < 16 && 0 <= b < 5 && b != idx ==> #[trigger] self.poison_status@[a]@[b] == table[a]@[b],
                forall|a: int| 0 <= a < left.len() ==> (#[trigger] self.poison_status@[a])@[idx as int] == left[a],
                forall|a: int| left.len() <= a < j ==> (#[trigger] self.poison_status@[a])@[idx as int] == PoisonStatus::none(),
            decreases 16 - j,
        {
            self.poison_status[j][idx] = none;
            j = j + 1;
        }
    }

    proof fn lemma_poison_end(table: Seq<[PoisonStatus; 5]>, idx: int, from: int)
        requires
            0 <= from <= 16,
        ensures
            from <= poison_end(table, idx, from) <= 16,
        decreases 16 - from,
    {
        if from < 16 && table[from]@[idx].poison_id != 0 {
            Self::lemma_poison_end(table, idx, from + 1);
        }
    }

    /// Cure a role of every poison of one kind.
    pub fn cure_poison_by_kind(&mut self, role: u16, poison_id: u16)
        requires
            old(self).role_findable(role),
        ensures
            if old(self).member(role) is Some {
                let idx = old(self).member(role)->0;
                column_replaced(
                    old(self).poison_status@,
                    final(self).poison_status@,
                    idx,
                    Seq::new(
                        16,
                        |i: int|
                            if old(self).poison_status@[i]@[idx].poison_id == poison_id {
                                PoisonStatus::none()
                            } else {
                                old(self).poison_status@[i]@[idx]
                            },
                    ),
                )
            } else {
                final(self).poison_status == old(self).poison_status
            },
            *final(self) == (Globals { poison_status: final(self).poison_status, ..*old(self) }),
    {
        match self.party_index_of_role(role) {
            Some(idx) => {
                let none: PoisonStatus = PoisonStatus::default();
                for i in 0..MAX_POISONS
                    invariant
                        idx < 5,
                        none == PoisonStatus::none(),
                        *self == (Globals { poison_status: self.poison_status, ..*old(self) }),
                        forall|a: int, b: int|
                            0 <= a < 16 && 0 <= b < 5 ==> #[trigger] self.poison_status@[a]@[b] == if b == idx && a < i && old(
                                self,
                            ).poison_status@[a]@[b].poison_id == poison_id {
                                PoisonStatus::none()
                            } else {
                                old(self).poison_status@[a]@[b]
                            },
                {
                    assert(self.poison_status@[i as int]@[idx as int] == old(self).poison_status@[i as int]@[idx as int]);
                    if self.poison_status[i][idx].poison_id == poison_id {
                        self.poison_status[i][idx] = none;
                    }
                }
            },
            None => {},
        }
    }

    /// The poisons of a member all have known objects.
    pub open spec fn poisons_known(&self, idx: int) -> bool {
        forall|i: int| 0 <= i < 16 ==> (#[trigger] self.poison_status@[i])@[idx].poison_id < self.game.objects@.len()
    }

    /// Cure a role of every poison up to a level.
    pub fn cure_poison_by_level(&mut self, role: u16, max_level: u16)
        requires
            old(self).role_findable(role),
            old(self).member(role) matches Some(idx) ==> old(self).poisons_known(idx),
        ensures
            if old(self).member(role) is Some {
                let idx = old(self).member(role)->0;
                column_replaced(
                    old(self).poison_status@,
                    final(self).poison_status@,
                    idx,
                    Seq::new(
                        16,
                        |i: int|
                            if old(self).game.objects@[old(self).poison_status@[i]@[idx].poison_id as int].data@[0] <= max_level {
                                PoisonStatus::none()
                            } else {
                                old(self).poison_status@[i]@[idx]
                            },
                    ),
                )
            } else {
                final(self).poison_status == old(self).poison_status
            },
            *final(self) == (Globals { poison_status: final(self).poison_status, ..*old(self) }),
    {
        match self.party_index_of_role(role) {
            Some(idx) => {
                let none: PoisonStatus = PoisonStatus::default();
                for i in 0..MAX_POISONS
                    invariant
                        idx < 5,
                        none == PoisonStatus::none(),
                        old(self).poisons_known(idx as int),
                        *self == (Globals { poison_status: self.poison_status, ..*old(self) }),
                        forall|a: int, b: int|
                            0 <= a < 16 && 0 <= b < 5 ==> #[trigger] self.poison_status@[a]@[b] == if b == idx && a < i && old(
                                self,
                            ).game.objects@[old(self).poison_status@[a]@[b].poison_id as int].data@[0] <= max_level {
                                PoisonStatus::none()
                            } else {
                                old(self).poison_status@[a]@[b]
                            },
                {
                    let w: u16 = self.poison_status[i][idx].poison_id;
                    assert(self.poison_status@[i as int]@[idx as int] == old(self).poison_status@[i as int]@[idx as int]);
                    assert(old(self).poison_status@[i as int]@[idx as int].poison_id < old(self).game.objects@.len());
                    if self.game.objects[w as usize].poison_level() <= max_level {
                        self.poison_status[i][idx] = none;
                    }
                }
            },
            None => {},
        }
    }

    /// The poison in this row counts as one of at least `min_level`.
    pub open spec fn poisoned_in_row(&self, idx: int, i: int, min_level: u16) -> bool {
        let id = self.poison_status@[i]@[idx].poison_id;
        id != 0 && min_level <= self.game.objects@[id as int].data@[0] < 99
    }

    /// Whether a role suffers from a poison of at least a level; levels from
    /// 99 on stand for worn equipment and do not count.
    pub fn is_player_poisoned_by_level(&self, role: u16, min_level: u16) -> (b: bool)
        requires
            self.role_findable(role),
            self.member(role) matches Some(idx) ==> self.poisons_known(idx),
        ensures
            b <==> self.member(role) is Some && exists|i: int|
                0 <= i < 16 && #[trigger] self.poisoned_in_row(self.member(role)->0, i, min_level),
    {
        match self.party_index_of_role(role) {
            Some(idx) => {
                for i in 0..MAX_POISONS
                    invariant
                        idx < 5,
                        self.poisons_known(idx as int),
                        self.member(role) == Some(idx as int),
                        forall|k: int| 0 <= k < i ==> !#[trigger] self.poisoned_in_row(idx as int, k, min_level),
                {
                    let w: u16 = self.poison_status[i][idx].poison_id;
                    assert(self.poison_status@[i as int]@[idx as int].poison_id < self.game.objects@.len());
                    if w != 0 {
                        let level: u16 = self.game.objects[w as usize].poison_level();
                        if level < 99 && level >= min_level {
                            assert(self.poisoned_in_row(self.member(role)->0, i as int, min_level));
                            return true;
                        }
                    }
                }
                false
            },
            None => false,
        }
    }

    /// Whether a role suffers from a poison of one kind.
    pub fn is_player_poisoned_by_kind(&self, role: u16, poison_id: u16) -> (b: bool)
        requires
            self.role_findable(role),
        ensures
            b <==> self.member(role) is Some && exists|i: int|
                0 <= i < 16 && (#[trigger] self.poison_status@[i])@[self.member(role)->0].poison_id == poison_id,
    {
        match self.party_index_of_role(role) {
            Some(idx) => {
                for i in 0..MAX_POISONS
                    invariant
                        idx < 5,
                        self.member(role) == Some(idx as int),
                        forall|k: int| 0 <= k < i ==> (#[trigger] self.poison_status@[k])@[idx as int].poison_id != poison_id,
                {
                    if self.poison_status[i][idx].poison_id == poison_id {
                        return true;
                    }
                }
                false
            },
            None => false,
        }
    }

    /// A role's attack strength with its equipment.
    pub fn player_attack_strength(&self, role: usize) -> (w: u16)
        requires
            role < 6,
        ensures
            w == self.total(Stat::AttackStrength, role as int),
    {
        let mut w: u16 = self.game.player_roles.attack_strength[role];
        for e in 0..7usize
            invariant
                role < 6,
                w == (Stat::AttackStrength.of(self.game.player_roles, role as int) + self.effects_sum(Stat::AttackStrength, role as int, e as int)) % 0x1_0000,
        {
            w = w.wrapping_add(self.equipment_effect[e].attack_strength[role]);
        }
        w
    }

    /// A role's magic strength with its equipment.
    pub fn player_magic_strength(&self, role: usize) -> (w: u16)
        requires
            role < 6,
        ensures
            w == self.total(Stat::MagicStrength, role as int),
    {
        let mut w: u16 = self.game.player_roles.magic_strength[role];
        for e in 0..7usize
            invariant
                role < 6,
                w == (Stat::MagicStrength.of(self.game.player_roles, role as int) + self.effects_sum(Stat::MagicStrength, role as int, e as int)) % 0x1_0000,
        {
            w = w.wrapping_add(self.equipment_effect[e].magic_strength[role]);
        }
        w
    }

    /// A role's defense with its equipment.
    pub fn player_defense(&self, role: usize) -> (w: u16)
        requires
            role < 6,
        ensures
            w == self.total(Stat::Defense, role as int),
    {
        let mut w: u16 = self.game.player_roles.defense[role];
        for e in 0..7usize
            invariant
                role < 6,
                w == (Stat::Defense.of(self.game.player_roles, role as int) + self.effects_sum(Stat::Defense, role as int, e as int)) % 0x1_0000,
        {
            w = w.wrapping_add(self.equipment_effect[e].defense[role]);
        }
        w
    }

    /// A role's dexterity with its equipment.
    pub fn player_dexterity(&self, role: usize) -> (w: u16)
        requires
            role < 6,
        ensures
            w == self.total(Stat::Dexterity, role as int),
    {
        let mut w: u16 = self.game.player_roles.dexterity[role];
        for e in 0..7usize
            invariant
                role < 6,
                w == (Stat::Dexterity.of(self.game.player_roles, role as int) + self.effects_sum(Stat::Dexterity, role as int, e as int)) % 0x1_0000,
        {
            w = w.wrapping_add(self.equipment_effect[e].dexterity[role]);
        }
        w
    }

    /// A role's flee rate with its equipment.
    pub fn player_flee_rate(&self, role: usize) -> (w: u16)
        requires
            role < 6,
        ensures
            w == self.total(Stat::FleeRate, role as int),
    {
        let mut w: u16 = self.game.player_roles.flee_rate[role];
        for e in 0..7usize
            invariant
                role < 6,
                w == (Stat::FleeRate.of(self.game.player_roles, role as int) + self.effects_sum(Stat::FleeRate, role as int, e as int)) % 0x1_0000,
        {
            w = w.wrapping_add(self.equipment_effect[e].flee_rate[role]);
        }
        w
    }

    /// A role's poison resistance with its equipment, at most 100.
    pub fn player_poison_resistance(&self, role: usize) -> (w: u16)
        requires
            role < 6,
        ensures
            w == if self.total(Stat::PoisonResistance, role as int) < 100 { self.total(Stat::PoisonResistance, role as int) } else { 100 },
    {
        let mut w: u16 = self.game.player_roles.poison_resistance[role];
        for e in 0..7usize
            invariant
                role < 6,
                w == (Stat::PoisonResistance.of(self.game.player_roles, role as int) + self.effects_sum(Stat::PoisonResistance, role as int, e as int)) % 0x1_0000,
        {
            w = w.wrapping_add(self.equipment_effect[e].poison_resistance[role]);
        }
        if w < 100 { w } else { 100 }
    }

    /// A role's resistance to an element with its equipment, at most 100.
    pub fn player_elemental_resistance(&self, role: usize, attrib: usize) -> (w: u16)
        requires
            role < 6,
            attrib < 5,
        ensures
            w == if self.total(Stat::ElementalResistance(attrib), role as int) < 100 { self.total(Stat::ElementalResistance(attrib), role as int) } else { 100 },
    {
        let mut w: u16 = self.game.player_roles.elemental_resistance[attrib][role];
        for e in 0..7usize
            invariant
                role < 6,
                attrib < 5,
                w == (Stat::ElementalResistance(attrib).of(self.game.player_roles, role as int) + self.effects_sum(Stat::ElementalResistance(attrib), role as int, e as int)) % 0x1_0000,
        {
            w = w.wrapping_add(self.equipment_effect[e].elemental_resistance[attrib][role]);
        }
        if w < 100 { w } else { 100 }
    }

    /// The role's value, or that of the last piece of equipment that has one.
    pub fn player_battle_sprite(&self, role: usize) -> (w: u16)
        requires
            role < 6,
        ensures
            w == self.last_battle_sprite(role as int, 7),
    {
        let mut w: u16 = self.game.player_roles.sprite_num_in_battle[role];
        for e in 0..7usize
            invariant
                role < 6,
                w == self.last_battle_sprite(role as int, e as int),
        {
            if self.equipment_effect[e].sprite_num_in_battle[role] != 0 {
                w = self.equipment_effect[e].sprite_num_in_battle[role];
            }
        }
        w
    }

    /// The role's value, or that of the last piece of equipment that has one.
    pub fn player_cooperative_magic(&self, role: usize) -> (w: u16)
        requires
            role < 6,
        ensures
            w == self.last_cooperative_magic(role as int, 7),
    {
        let mut w: u16 = self.game.player_roles.cooperative_magic[role];
        for e in 0..7usize
            invariant
                role < 6,
                w == self.last_cooperative_magic(role as int, e as int),
        {
            if self.equipment_effect[e].cooperative_magic[role] != 0 {
                w = self.equipment_effect[e].cooperative_magic[role];
            }
        }
        w
    }

    /// Whether a piece of equipment lets a role attack all enemies.
    pub fn player_can_attack_all(&self, role: usize) -> (b: bool)
        requires
            role < 6,
        ensures
            b <==> exists|e: int| 0 <= e < 7 && (#[trigger] self.equipment_effect@[e]).attack_all@[role as int] != 0,
    {
        for e in 0..7usize
            invariant
                role < 6,
                forall|k: int| 0 <= k < e ==> (#[trigger] self.equipment_effect@[k]).attack_all@[role as int] == 0,
        {
            if self.equipment_effect[e].attack_all[role] != 0 {
                return true;
            }
        }
        false
    }

    fn find_magic(&self, role: usize, magic: u16) -> (slot: usize)
        requires
            role < 6,
        ensures
            slot == magic_slot(self.game.player_roles.magic@, role as int, magic, 0),
            slot <= 32,
    {
        let ghost magics = self.game.player_roles.magic@;
        let mut i: usize = 0;
        while i < MAX_PLAYER_MAGICS && self.game.player_roles.magic[i][role] != magic
            invariant
                role < 6,
                i <= 32,
                magics == self.game.player_roles.magic@,
                magic_slot(magics, role as int, magic, i as int) == magic_slot(magics, role as int, magic, 0),
            decreases 32 - i,
        {
            i = i + 1;
        }
        i
    }

    /// Teach a role a magic: false if it knows it or has no free slot.
    pub fn add_magic(&mut self, role: usize, magic: u16) -> (added: bool)
        requires
            role < 6,
        ensures
            ({
                let magics = old(self).game.player_roles.magic@;
                let known = magic_slot(magics, role as int, magic, 0) < 32;
                let free = magic_slot(magics, role as int, 0, 0);
                &&& added == (!known && free < 32)
                &&& added ==> magic_set(magics, final(self).game.player_roles.magic@, role as int, free, magic)
                &&& !added ==> *final(self) == *old(self)
            }),
            *final(self) == (Globals {
                game: GameData {
                    player_roles: PlayerRoles { magic: final(self).game.player_roles.magic, ..old(self).game.player_roles },
                    ..old(self).game
                },
                ..*old(self)
            }),
    {
        if self.find_magic(role, magic) < MAX_PLAYER_MAGICS {
            return false;
        }
        let free: usize = self.find_magic(role, 0);
        if free < MAX_PLAYER_MAGICS {
            self.game.player_roles.magic[free][role] = magic;
            return true;
        }
        false
    }

    /// Make a role forget a magic.
    pub fn remove_magic(&mut self, role: usize, magic: u16)
        requires
            role < 6,
        ensures
            ({
                let magics = old(self).game.player_roles.magic@;
                let slot = magic_slot(magics, role as int, magic, 0);
                if slot < 32 {
                    magic_set(magics, final(self).game.player_roles.magic@, role as int, slot, 0)
                } else {
                    *final(self) == *old(self)
                }
            }),
            *final(self) == (Globals {
                game: GameData {
                    player_roles: PlayerRoles { magic: final(self).game.player_roles.magic, ..old(self).game.player_roles },
                    ..old(self).game
                },
                ..*old(self)
            }),
    {
        let slot: usize = self.find_magic(role, magic);
        if slot < MAX_PLAYER_MAGICS {
            self.game.player_roles.magic[slot][role] = 0;
        }
    }

    /// Give a role a status for some rounds. Bad statuses do not replace one
    /// that lasts, a puppet has to be dead, and good statuses need a role that
    /// is alive and last the longer of both times.
    pub fn set_player_status(&mut self, role: usize, status_id: usize, num_round: u16) -> (done: bool)
        requires
            role < 6,
            status_id < 9,
        ensures
            status_set(
                old(self).player_status@,
                final(self).player_status@,
                role as int,
                status_id as int,
                status_after(
                    status_id,
                    old(self).game.player_roles.hp@[role as int],
                    old(self).player_status@[role as int]@[status_id as int],
                    num_round,
                ),
            ),
            done == !(status_id == STATUS_PUPPET && old(self).game.player_roles.hp@[role as int] != 0),
            *final(self) == (Globals { player_status: final(self).player_status, ..*old(self) }),
    {
        match status_id {
            STATUS_CONFUSED | STATUS_SLEEP | STATUS_SILENCE | STATUS_PARALYZED => {
                if self.player_status[role][status_id] == 0 {
                    self.player_status[role][status_id] = num_round;
                }
                true
            },
            STATUS_PUPPET => {
                if self.game.player_roles.hp[role] == 0 {
                    if self.player_status[role][status_id] < num_round {
                        self.player_status[role][status_id] = num_round;
                    }
                    true
                } else {
                    false
                }
            },
            _ => {
                if self.game.player_roles.hp[role] != 0 && self.player_status[role][status_id] < num_round {
                    self.player_status[role][status_id] = num_round;
                }
                true
            },
        }
    }

    /// End a status, unless it comes from equipment (above 999 rounds).
    pub fn remove_player_status(&mut self, role: usize, status_id: usize)
        requires
            role < 6,
            status_id < 9,
        ensures
            ({
                let current = old(self).player_status@[role as int]@[status_id as int];
                status_set(
                    old(self).player_status@,
                    final(self).player_status@,
                    role as int,
                    status_id as int,
                    if current <= 999 { 0 } else { current },
                )
            }),
            *final(self) == (Globals { player_status: final(self).player_status, ..*old(self) }),
    {
        if self.player_status[role][status_id] <= 999 {
            self.player_status[role][status_id] = 0;
        }
    }

    /// End every status of every role, unless it comes from equipment.
    pub fn clear_all_player_status(&mut self)
        ensures
            forall|i: int, j: int|
                0 <= i < 6 && 0 <= j < 9 ==> #[trigger] final(self).player_status@[i]@[j] == if old(
                    self,
                ).player_status@[i]@[j] <= 999 {
                    0
                } else {
                    old(self).player_status@[i]@[j]
                },
            *final(self) == (Globals { player_status: final(self).player_status, ..*old(self) }),
    {
        for r in 0..6usize
            invariant
                *self == (Globals { player_status: self.player_status, ..*old(self) }),
                forall|i: int, j: int|
                    0 <= i < 6 && 0 <= j < 9 ==> #[trigger] self.player_status@[i]@[j] == if i < r && old(
                        self,
                    ).player_status@[i]@[j] <= 999 {
                        0
                    } else {
                        old(self).player_status@[i]@[j]
                    },
        {
            for s in 0..9usize
                invariant
                    r < 6,
                    *self == (Globals { player_status: self.player_status, ..*old(self) }),
                    forall|i: int, j: int|
                        0 <= i < 6 && 0 <= j < 9 ==> #[trigger] self.player_status@[i]@[j] == if (i < r || (i == r && j < s))
                            && old(self).player_status@[i]@[j] <= 999 {
                            0
                        } else {
                            old(self).player_status@[i]@[j]
                        },
            {
                assert(self.player_status@[r as int]@[s as int] == old(self).player_status@[r as int]@[s as int]);
                if self.player_status[r][s] <= 999 {
                    self.player_status[r][s] = 0;
                }
            }
        }
    }

    /// Raise a role by some levels: statistics grow by draws and are capped at
    /// 999, the level at 99, and the experience towards the next level starts
    /// over.
    pub fn player_level_up(&mut self, rng: &mut Rng, role: usize, num_level: u16)
        requires
            role < 6,
            old(self).game.player_roles.level@[role as int] + num_level <= u16::MAX,
        ensures
            ({
                let before = old(self).game.player_roles;
                let after = final(self).game.player_roles;
                let r = role as int;
                &&& exists|clock: Seq<i32>|
                    {
                        let g = #[trigger] grown(Growth::of(before, r), old(rng).seed as int, clock, num_level as int);
                        &&& clock.len() == 6 * num_level
                        &&& final(rng).seed == seed_after(old(rng).seed as int, clock, 6 * num_level)
                        &&& after.max_hp@ == before.max_hp@.update(r, capped(g.max_hp))
                        &&& after.max_mp@ == before.max_mp@.update(r, capped(g.max_mp))
                        &&& after.attack_strength@ == before.attack_strength@.update(r, capped(g.attack_strength))
                        &&& after.magic_strength@ == before.magic_strength@.update(r, capped(g.magic_strength))
                        &&& after.defense@ == before.defense@.update(r, capped(g.defense))
                        &&& after.dexterity@ == before.dexterity@.update(r, capped(g.dexterity))
                        &&& after.flee_rate@ == before.flee_rate@.update(r, capped(g.flee_rate))
                    }
                &&& after.level@ == before.level@.update(
                    r,
                    (if before.level@[r] + num_level < 99 { before.level@[r] + num_level } else { 99 }) as u16,
                )
                &&& final(self).exp.primary_exp@ == old(self).exp.primary_exp@.update(
                    r,
                    Experience { exp: 0, level: after.level@[r], ..old(self).exp.primary_exp@[r] },
                )
                &&& *final(self) == (Globals {
                    game: GameData {
                        player_roles: PlayerRoles {
                            level: after.level,
                            max_hp: after.max_hp,
                            max_mp: after.max_mp,
                            attack_strength: after.attack_strength,
                            magic_strength: after.magic_strength,
                            defense: after.defense,
                            dexterity: after.dexterity,
                            flee_rate: after.flee_rate,
                            ..before
                        },
                        ..old(self).game
                    },
                    exp: AllExperience { primary_exp: final(self).exp.primary_exp, ..old(self).exp },
                    ..*old(self)
                })
            }),
    {
        let ghost before = self.game.player_roles;
        let ghost r: int = role as int;
        let ghost seed: int = rng.seed as int;
        let ghost start = Growth::of(before, r);
        let level: u16 = self.game.player_roles.level[role] + num_level;
        let level: u16 = if level < 99 {
            level
        } else {
            99
        };
        let mut stats: LevelStats = LevelStats {
            max_hp: self.game.player_roles.max_hp[role],
            max_mp: self.game.player_roles.max_mp[role],
            attack_strength: self.game.player_roles.attack_strength[role],
            magic_strength: self.game.player_roles.magic_strength[role],
            defense: self.game.player_roles.defense[role],
            dexterity: self.game.player_roles.dexterity[role],
            flee_rate: self.game.player_roles.flee_rate[role],
        };
        let mut clock: Ghost<Seq<i32>> = Ghost(Seq::empty());
        for n in 0..num_level
            invariant
                seed == old(rng).seed,
                clock@.len() == 6 * n,
                rng.seed == seed_after(seed, clock@, 6 * n),
                grown(start, seed, clock@, n as int) == stats.growth(),
        {
            stats = level_once(rng, stats, Ghost(start), Ghost(seed), &mut clock, Ghost(n as int));
        }
        self.game.player_roles.level[role] = level;
        self.game.player_roles.max_hp[role] = cap_999(stats.max_hp);
        self.game.player_roles.max_mp[role] = cap_999(stats.max_mp);
        self.game.player_roles.attack_strength[role] = cap_999(stats.attack_strength);
        self.game.player_roles.magic_strength[role] = cap_999(stats.magic_strength);
        self.game.player_roles.defense[role] = cap_999(stats.defense);
        self.game.player_roles.dexterity[role] = cap_999(stats.dexterity);
        self.game.player_roles.flee_rate[role] = cap_999(stats.flee_rate);
        self.exp.primary_exp[role].exp = 0;
        self.exp.primary_exp[role].level = level;
        assert(grown(start, seed, clock@, num_level as int).max_hp == stats.max_hp);
    }

    /// Have everything reloaded from a save slot before the next frame.
    pub fn reload_in_next_tick(&mut self, save_slot: i32)
        ensures
            *final(self) == (Globals {
                current_save_slot: save_slot as u8,
                load_flags: old(self).load_flags | 7,
                entering_scene: true,
                need_to_fade_in: true,
                frame_num: 0,
                ..*old(self)
            }),
    {
        let all: u8 = LOAD_GLOBAL_DATA | LOAD_SCENE | LOAD_PLAYER_SPRITE;
        assert(LOAD_GLOBAL_DATA | LOAD_SCENE | LOAD_PLAYER_SPRITE == 7u8) by (bit_vector);
        self.current_save_slot = save_slot as u8;
        self.load_flags = self.load_flags | all;
        self.entering_scene = true;
        self.need_to_fade_in = true;
        self.frame_num = 0;
    }
}

/// Where a search for a magic ends, and what it has passed.
proof fn lemma_magic_slot(magics: Seq<[u16; 6]>, role: int, magic: u16, from: int)
    requires
        0 <= from <= 32,
    ensures
        from <= magic_slot(magics, role, magic, from) <= 32,
        forall|i: int| from <= i < magic_slot(magics, role, magic, from) ==> (#[trigger] magics[i])@[role] != magic,
        magic_slot(magics, role, magic, from) < 32 ==> magics[magic_slot(magics, role, magic, from)]@[role] == magic,
    decreases 32 - from,
{
    if from < 32 && magics[from]@[role] != magic {
        lemma_magic_slot(magics, role, magic, from + 1);
    }
}

/// A magic that was learned is known, so it is not learned twice.
pub proof fn law_learned_magic_is_known(before: Seq<[u16; 6]>, after: Seq<[u16; 6]>, role: int, magic: u16)
    requires
        0 <= role < 6,
        magic_slot(before, role, 0, 0) < 32,
        magic_set(before, after, role, magic_slot(before, role, 0, 0), magic),
    ensures
        magic_slot(after, role, magic, 0) < 32,
{
    let free = magic_slot(before, role, 0, 0);
    lemma_magic_slot(before, role, 0, 0);
    assert(after[free]@[role] == magic);
    lemma_magic_slot(after, role, magic, 0);
}

/// A magic that a role knew once and forgot can be learned again.
pub proof fn law_forgotten_magic_can_be_learned(before: Seq<[u16; 6]>, after: Seq<[u16; 6]>, role: int, magic: u16)
    requires
        0 <= role < 6,
        magic != 0,
        magic_slot(before, role, magic, 0) < 32,
        forall|i: int|
            0 <= i < 32 && i != magic_slot(before, role, magic, 0) ==> (#[trigger] before[i])@[role] != magic,
        magic_set(before, after, role, magic_slot(before, role, magic, 0), 0),
    ensures
        magic_slot(after, role, magic, 0) == 32,
        magic_slot(after, role, 0, 0) < 32,
{
    let slot = magic_slot(before, role, magic, 0);
    lemma_magic_slot(before, role, magic, 0);
    lemma_magic_slot(after, role, magic, 0);
    lemma_magic_slot(after, role, 0, 0);
    assert(after[slot]@[role] == 0);
    if magic_slot(after, role, magic, 0) < 32 {
        let k = magic_slot(after, role, magic, 0);
        assert(after[k]@[role] == magic);
        assert(before[k]@[role] == magic);
    }
}

/// A bad status that lasts is not replaced, whatever is set later.
pub proof fn law_bad_status_is_not_replaced(status_id: usize, hp: u16, first: u16, later: u16)
    requires
        status_id == STATUS_CONFUSED || status_id == STATUS_PARALYZED || status_id == STATUS_SLEEP || status_id == STATUS_SILENCE,
        first != 0,
    ensures
        status_after(status_id, hp, status_after(status_id, hp, 0, first), later) == first,
{
}

/// Setting a status never shortens it.
pub proof fn law_status_is_not_shortened(status_id: usize, hp: u16, current: u16, rounds: u16)
    requires
        status_id < 9,
    ensures
        status_after(status_id, hp, current, rounds) >= current,
{
}

/// Points stay between 0 and their maximum, and where no word overflows they
/// are the sum, held to those bounds.
pub proof fn law_points_stay_in_bounds(points: u16, delta: i16, max: u16)
    ensures
        0 <= changed_points(points, delta, max) <= max,
        -0x8000 <= points + delta < 0 ==> changed_points(points, delta, max) == 0,
        0 <= points + delta < 0x8000 ==> changed_points(points, delta, max) == if points + delta < max {
            points + delta
        } else {
            max as int
        },
{
}

/// The party member who plays a role is the first who does; there is none
/// exactly if nobody does.
pub proof fn law_member_plays_role(g: Globals, role: u16)
    ensures
        g.member(role) is None <==> forall|i: int|
            0 <= i <= g.max_party_member_index ==> (#[trigger] g.party@[i]).player_role != role,
        g.member(role) matches Some(k) ==> {
            &&& 0 <= k <= g.max_party_member_index
            &&& g.party@[k].player_role == role
            &&& forall|i: int| 0 <= i < k ==> (#[trigger] g.party@[i]).player_role != role
        },
{
    Globals::lemma_member_bounds(g.party@, role, 0, g.max_party_member_index as int);
    let k = member_of_role(g.party@, role, 0, g.max_party_member_index as int);
    if k <= g.max_party_member_index {
        assert(g.party@[k].player_role == role);
    }
}

/// Poisons end with the first row that holds none.
pub proof fn law_poisons_end_with_none(table: Seq<[PoisonStatus; 5]>, idx: int, from: int)
    requires
        0 <= from <= 16,
    ensures
        from <= poison_end(table, idx, from) <= 16,
        forall|i: int| from <= i < poison_end(table, idx, from) ==> (#[trigger] table[i])@[idx].poison_id != 0,
        poison_end(table, idx, from) < 16 ==> table[poison_end(table, idx, from)]@[idx].poison_id == 0,
    decreases 16 - from,
{
    if from < 16 && table[from]@[idx].poison_id != 0 {
        law_poisons_end_with_none(table, idx, from + 1);
    }
}

/// What stays of poisons are those of a level below 99, in order.
pub proof fn law_poisons_below_ninety_nine_stay(table: Seq<[PoisonStatus; 5]>, objects: Seq<GameObject>, idx: int, n: int)
    requires
        0 <= n,
    ensures
        curable(table, objects, idx, n) == Seq::new(n as nat, |i: int| table[i]@[idx]).filter(
            |p: PoisonStatus| objects[p.poison_id as int].data@[0] < 99,
        ),
    decreases n,
{
    reveal(Seq::filter);
    let all = Seq::new(n as nat, |i: int| table[i]@[idx]);
    if n > 0 {
        law_poisons_below_ninety_nine_stay(table, objects, idx, n - 1);
        assert(all.drop_last() =~= Seq::new((n - 1) as nat, |i: int| table[i]@[idx]));
        assert(all.last() == table[n - 1]@[idx]);
    } else {
        assert(all =~= Seq::<PoisonStatus>::empty());
    }
}

/// A magic's slot is the first that holds it.
pub proof fn law_magic_slot_is_first(magics: Seq<[u16; 6]>, role: int, magic: u16, from: int)
    requires
        0 <= from <= 32,
    ensures
        from <= magic_slot(magics, role, magic, from) <= 32,
        forall|i: int| from <= i < magic_slot(magics, role, magic, from) ==> (#[trigger] magics[i])@[role] != magic,
        magic_slot(magics, role, magic, from) < 32 ==> magics[magic_slot(magics, role, magic, from)]@[role] == magic,
    decreases 32 - from,
{
    if from < 32 && magics[from]@[role] != magic {
        law_magic_slot_is_first(magics, role, magic, from + 1);
    }
}

/// What a status becomes: confusion, paralysis, sleep and silence come over
/// whoever has none of it; only the dead become puppets; the other statuses
/// come only over the living; and these last the longer of both times.
pub proof fn law_statuses_come_over(status_id: usize, hp: u16, current: u16, rounds: u16)
    requires
        status_id < 9,
    ensures
        status_id < 4 && current == 0 ==> status_after(status_id, hp, current, rounds) == rounds,
        status_id < 4 && current > 0 ==> status_after(status_id, hp, current, rounds) == current,
        status_id == STATUS_PUPPET && hp > 0 ==> status_after(status_id, hp, current, rounds) == current,
        status_id > 4 && hp == 0 ==> status_after(status_id, hp, current, rounds) == current,
        status_id == STATUS_PUPPET && hp == 0 || status_id > 4 && hp > 0 ==> status_after(status_id, hp, current, rounds)
            == if current < rounds { rounds } else { current },
        STATUS_CONFUSED == 0 && STATUS_PARALYZED == 1 && STATUS_SLEEP == 2 && STATUS_SILENCE == 3 && STATUS_PUPPET == 4,
{
}

/// A role's statistic is that of the role and what each piece of equipment
/// adds, as far as 16 bits hold it.
pub proof fn law_equipment_adds_up(g: Globals, stat: Stat, role: int)
    ensures
        ({
            let e = g.equipment_effect@;
            let sum = stat.of(g.game.player_roles, role) + stat.of(e[0], role) + stat.of(e[1], role) + stat.of(e[2], role)
                + stat.of(e[3], role) + stat.of(e[4], role) + stat.of(e[5], role) + stat.of(e[6], role);
            &&& sum < 0x1_0000 ==> g.total(stat, role) == sum
            &&& g.total(stat, role) == sum % 0x1_0000
        }),
        Stat::AttackStrength.of(g.game.player_roles, role) == g.game.player_roles.attack_strength@[role],
        Stat::MagicStrength.of(g.game.player_roles, role) == g.game.player_roles.magic_strength@[role],
        Stat::Defense.of(g.game.player_roles, role) == g.game.player_roles.defense@[role],
        Stat::Dexterity.of(g.game.player_roles, role) == g.game.player_roles.dexterity@[role],
        Stat::FleeRate.of(g.game.player_roles, role) == g.game.player_roles.flee_rate@[role],
        Stat::PoisonResistance.of(g.game.player_roles, role) == g.game.player_roles.poison_resistance@[role],
{
    reveal_with_fuel(Globals::effects_sum, 8);
}

/// The looks of a role in battle, and its cooperative magic, are those of the
/// last piece of equipment that gives any, or else its own.
pub proof fn law_last_equipment_counts(g: Globals, role: int, k: int)
    requires
        0 <= k < 7,
    ensures
        g.equipment_effect@[k].sprite_num_in_battle@[role] != 0 && (forall|i: int|
            k < i < 7 ==> (#[trigger] g.equipment_effect@[i]).sprite_num_in_battle@[role] == 0) ==> g.last_battle_sprite(role, 7)
            == g.equipment_effect@[k].sprite_num_in_battle@[role],
        (forall|i: int| 0 <= i < 7 ==> (#[trigger] g.equipment_effect@[i]).sprite_num_in_battle@[role] == 0)
            ==> g.last_battle_sprite(role, 7) == g.game.player_roles.sprite_num_in_battle@[role],
        g.equipment_effect@[k].cooperative_magic@[role] != 0 && (forall|i: int|
            k < i < 7 ==> (#[trigger] g.equipment_effect@[i]).cooperative_magic@[role] == 0) ==> g.last_cooperative_magic(role, 7)
            == g.equipment_effect@[k].cooperative_magic@[role],
        (forall|i: int| 0 <= i < 7 ==> (#[trigger] g.equipment_effect@[i]).cooperative_magic@[role] == 0)
            ==> g.last_cooperative_magic(role, 7) == g.game.player_roles.cooperative_magic@[role],
{
    reveal_with_fuel(Globals::last_battle_sprite, 8);
    reveal_with_fuel(Globals::last_cooperative_magic, 8);
}

/// One level raises the health by 10 to 17, the magic by 8 to 13, the attack
/// and magic strengths by 4 or 5, defense and dexterity by 2 or 3, and the
/// flee rate by 2, where 16 bits hold them.
pub proof fn law_levels_raise(start: Growth, seed: i32, clock: Seq<i32>, levels: int)
    requires
        levels >= 1,
        clock.len() >= 6 * levels,
        ({
            let g = grown(start, seed as int, clock, levels - 1);
            &&& 0 <= g.max_hp < 0x8000
            &&& 0 <= g.max_mp < 0x8000
            &&& 0 <= g.attack_strength < 0x8000
            &&& 0 <= g.magic_strength < 0x8000
            &&& 0 <= g.defense < 0x8000
            &&& 0 <= g.dexterity < 0x8000
            &&& 0 <= g.flee_rate < 0x8000
        }),
    ensures
        ({
            let a = grown(start, seed as int, clock, levels - 1);
            let b = grown(start, seed as int, clock, levels);
            &&& 10 <= b.max_hp - a.max_hp <= 17
            &&& 8 <= b.max_mp - a.max_mp <= 13
            &&& 4 <= b.attack_strength - a.attack_strength <= 5
            &&& 4 <= b.magic_strength - a.magic_strength <= 5
            &&& 2 <= b.defense - a.defense <= 3
            &&& 2 <= b.dexterity - a.dexterity <= 3
            &&& b.flee_rate - a.flee_rate == 2
        }),
        grown(start, seed as int, clock, 0) == start,
{
    let d = 6 * (levels - 1);
    lemma_nth_draw_in_range(seed, clock, d, 7);
    lemma_nth_draw_in_range(seed, clock, d + 1, 5);
    lemma_nth_draw_in_range(seed, clock, d + 2, 1);
    lemma_nth_draw_in_range(seed, clock, d + 3, 1);
    lemma_nth_draw_in_range(seed, clock, d + 4, 1);
    lemma_nth_draw_in_range(seed, clock, d + 5, 1);
}

proof fn lemma_seed_fits(seed: i32, clock: Seq<i32>, n: int)
    requires
        n >= 0,
    ensures
        i32::MIN <= seed_after(seed as int, clock, n) <= i32::MAX,
    decreases n,
{
    if n > 0 {
        lemma_seed_fits(seed, clock, n - 1);
        let s = seed_after(seed as int, clock, n - 1) as i32;
        random::law_draw_range(s, clock[n - 1]);
    }
}

proof fn lemma_nth_draw_in_range(seed: i32, clock: Seq<i32>, n: int, to: i32)
    requires
        n >= 0,
        0 < to < 100,
    ensures
        0 <= nth_draw(seed as int, clock, n, to as int) <= to,
{
    reveal(nth_draw);
    lemma_seed_fits(seed, clock, n + 1);
    let s = seed_after(seed as int, clock, n + 1) as i32;
    random::law_scaled_draw_stays_in_range(0, to, random::draw_of(s as int) as i32);
}

/// Statistics stop at 999, and below it they are what they are.
pub proof fn law_statistics_stop_at_999(v: int)
    requires
        v >= 0,
    ensures
        v <= 999 ==> capped(v) == v,
        v >= 999 ==> capped(v) == 999,
{
}

/// A poison counts by its level: at least the one asked for, and below 99, from
/// where on the levels stand for worn equipment.
pub proof fn law_poison_levels(g: Globals, idx: int, i: int, min_level: u16)
    ensures
        ({
            let p = g.poison_status@[i]@[idx];
            let level = g.game.objects@[p.poison_id as int].data@[0];
            &&& g.poisoned_in_row(idx, i, min_level) <==> p.poison_id != 0 && min_level <= level <= 98
        }),
{
}

} // verus!
