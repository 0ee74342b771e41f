//! Role statistics and experience: tables with one column per role.

use vstd::prelude::*;

use crate::records;
use crate::records::{Experience, MAX_PLAYER_EQUIPMENTS, MAX_PLAYER_MAGICS, MAX_PLAYER_ROLES, NUM_MAGIC_ELEMENTAL};
use crate::wordio;
use crate::wordio::{WordReader, WordWriter};

verus! {

/// The statistics of all roles: 75 rows of 6 words, one column per role.
#[derive(Clone, Copy, Debug, PartialEq, Eq)]
pub struct PlayerRoles {
    pub avatar: [u16; MAX_PLAYER_ROLES],
    pub sprite_num_in_battle: [u16; MAX_PLAYER_ROLES],
    pub sprite_num: [u16; MAX_PLAYER_ROLES],
    pub name: [u16; MAX_PLAYER_ROLES],
    pub attack_all: [u16; MAX_PLAYER_ROLES],
    pub unknown1: [u16; MAX_PLAYER_ROLES],
    pub level: [u16; MAX_PLAYER_ROLES],
    pub max_hp: [u16; MAX_PLAYER_ROLES],
    pub max_mp: [u16; MAX_PLAYER_ROLES],
    pub hp: [u16; MAX_PLAYER_ROLES],
    pub mp: [u16; MAX_PLAYER_ROLES],
    pub equipment: [[u16; MAX_PLAYER_ROLES]; MAX_PLAYER_EQUIPMENTS],
    pub attack_strength: [u16; MAX_PLAYER_ROLES],
    pub magic_strength: [u16; MAX_PLAYER_ROLES],
    pub defense: [u16; MAX_PLAYER_ROLES],
    pub dexterity: [u16; MAX_PLAYER_ROLES],
    pub flee_rate: [u16; MAX_PLAYER_ROLES],
    pub poison_resistance: [u16; MAX_PLAYER_ROLES],
    pub elemental_resistance: [[u16; MAX_PLAYER_ROLES]; NUM_MAGIC_ELEMENTAL],
    pub unknown2: [u16; MAX_PLAYER_ROLES],
    pub unknown3: [u16; MAX_PLAYER_ROLES],
    pub unknown4: [u16; MAX_PLAYER_ROLES],
    pub covered_by: [u16; MAX_PLAYER_ROLES],
    pub magic: [[u16; MAX_PLAYER_ROLES]; MAX_PLAYER_MAGICS],
    pub walk_frames: [u16; MAX_PLAYER_ROLES],
    pub cooperative_magic: [u16; MAX_PLAYER_ROLES],
    pub unknown5: [u16; MAX_PLAYER_ROLES],
    pub unknown6: [u16; MAX_PLAYER_ROLES],
    pub death_sound: [u16; MAX_PLAYER_ROLES],
    pub attack_sound: [u16; MAX_PLAYER_ROLES],
    pub weapon_sound: [u16; MAX_PLAYER_ROLES],
    pub critical_sound: [u16; MAX_PLAYER_ROLES],
    pub magic_sound: [u16; MAX_PLAYER_ROLES],
    pub cover_sound: [u16; MAX_PLAYER_ROLES],
    pub dying_sound: [u16; MAX_PLAYER_ROLES],
}

impl Default for PlayerRoles {
    fn default() -> (v: PlayerRoles)
        ensures
            v.is_zero(),
    {
        let zeros: [u16; 6] = [0u16; 6];
        PlayerRoles {
            avatar: zeros,
            sprite_num_in_battle: zeros,
            sprite_num: zeros,
            name: zeros,
            attack_all: zeros,
            unknown1: zeros,
            level: zeros,
            max_hp: zeros,
            max_mp: zeros,
            hp: zeros,
            mp: zeros,
            equipment: [zeros; 6],
            attack_strength: zeros,
            magic_strength: zeros,
            defense: zeros,
            dexterity: zeros,
            flee_rate: zeros,
            poison_resistance: zeros,
            elemental_resistance: [zeros; 5],
            unknown2: zeros,
            unknown3: zeros,
            unknown4: zeros,
            covered_by: zeros,
            magic: [zeros; 32],
            walk_frames: zeros,
            cooperative_magic: zeros,
            unknown5: zeros,
            unknown6: zeros,
            death_sound: zeros,
            attack_sound: zeros,
            weapon_sound: zeros,
            critical_sound: zeros,
            magic_sound: zeros,
            cover_sound: zeros,
            dying_sound: zeros,
        }
    }
}

impl PlayerRoles {
    pub const BYTES: usize = 900;

    /// Row `k` of the table, in the order in which rows are stored.
    pub open spec fn row(self, k: int) -> Seq<u16> {
        if k == 0 {
            self.avatar@
        } else if k == 1 {
            self.sprite_num_in_battle@
        } else if k == 2 {
            self.sprite_num@
        } else if k == 3 {
            self.name@
        } else if k == 4 {
            self.attack_all@
        } else if k == 5 {
            self.unknown1@
        } else if k == 6 {
            self.level@
        } else if k == 7 {
            self.max_hp@
        } else if k == 8 {
            self.max_mp@
        } else if k == 9 {
            self.hp@
        } else if k == 10 {
            self.mp@
        } else if 11 <= k < 17 {
            self.equipment@[k - 11]@
        } else if k == 17 {
            self.attack_strength@
        } else if k == 18 {
            self.magic_strength@
        } else if k == 19 {
            self.defense@
        } else if k == 20 {
            self.dexterity@
        } else if k == 21 {
            self.flee_rate@
        } else if k == 22 {
            self.poison_resistance@
        } else if 23 <= k < 28 {
            self.elemental_resistance@[k - 23]@
        } else if k == 28 {
            self.unknown2@
        } else if k == 29 {
            self.unknown3@
        } else if k == 30 {
            self.unknown4@
        } else if k == 31 {
            self.covered_by@
        } else if 32 <= k < 64 {
            self.magic@[k - 32]@
        } else if k == 64 {
            self.walk_frames@
        } else if k == 65 {
            self.cooperative_magic@
        } else if k == 66 {
            self.unknown5@
        } else if k == 67 {
            self.unknown6@
        } else if k == 68 {
            self.death_sound@
        } else if k == 69 {
            self.attack_sound@
        } else if k == 70 {
            self.weapon_sound@
        } else if k == 71 {
            self.critical_sound@
        } else if k == 72 {
            self.magic_sound@
        } else if k == 73 {
            self.cover_sound@
        } else {
            self.dying_sound@
        }
    }

    /// Every entry is 0.
    pub open spec fn is_zero(self) -> bool {
        forall|k: int, j: int| 0 <= k < 75 && 0 <= j < 6 ==> #[trigger] self.row(k)[j] == 0
    }

    /// The 450 words at byte offset `at` are those of this table, row by row.
    pub open spec fn held_at(self, buf: Seq<u8>, at: int) -> bool {
        forall|k: int| 0 <= k < 75 ==> #[trigger] self.row(k) == wordio::words(buf, at + 12 * k, 6)
    }

    /// Two tables with the same rows are equal.
    pub proof fn lemma_rows_determine(a: PlayerRoles, b: PlayerRoles)
        requires
            forall|k: int| 0 <= k < 75 ==> #[trigger] a.row(k) == b.row(k),
        ensures
            a == b,
    {
        assert(a.row(0) == b.row(0));
        assert(a.avatar =~= b.avatar);
        assert(a.row(1) == b.row(1));
        assert(a.sprite_num_in_battle =~= b.sprite_num_in_battle);
        assert(a.row(2) == b.row(2));
        assert(a.sprite_num =~= b.sprite_num);
        assert(a.row(3) == b.row(3));
        assert(a.name =~= b.name);
        assert(a.row(4) == b.row(4));
        assert(a.attack_all =~= b.attack_all);
        assert(a.row(5) == b.row(5));
        assert(a.unknown1 =~= b.unknown1);
        assert(a.row(6) == b.row(6));
        assert(a.level =~= b.level);
        assert(a.row(7) == b.row(7));
        assert(a.max_hp =~= b.max_hp);
        assert(a.row(8) == b.row(8));
        assert(a.max_mp =~= b.max_mp);
        assert(a.row(9) == b.row(9));
        assert(a.hp =~= b.hp);
        assert(a.row(10) == b.row(10));
        assert(a.mp =~= b.mp);
        assert forall|i: int| 0 <= i < 6 implies #[trigger] a.equipment@[i] == b.equipment@[i] by {
            assert(a.row(i + 11) == b.row(i + 11));
            assert(a.equipment@[i] =~= b.equipment@[i]);
        }
        assert(a.equipment =~= b.equipment);
        assert(a.row(17) == b.row(17));
        assert(a.attack_strength =~= b.attack_strength);
        assert(a.row(18) == b.row(18));
        assert(a.magic_strength =~= b.magic_strength);
        assert(a.row(19) == b.row(19));
        assert(a.defense =~= b.defense);
        assert(a.row(20) == b.row(20));
        assert(a.dexterity =~= b.dexterity);
        assert(a.row(21) == b.row(21));
        assert(a.flee_rate =~= b.flee_rate);
        assert(a.row(22) == b.row(22));
        assert(a.poison_resistance =~= b.poison_resistance);
        assert forall|i: int| 0 <= i < 5 implies #[trigger] a.elemental_resistance@[i] == b.elemental_resistance@[i] by {
            assert(a.row(i + 23) == b.row(i + 23));
            assert(a.elemental_resistance@[i] =~= b.elemental_resistance@[i]);
        }
        assert(a.elemental_resistance =~= b.elemental_resistance);
        assert(a.row(28) == b.row(28));
        assert(a.unknown2 =~= b.unknown2);
        assert(a.row(29) == b.row(29));
        assert(a.unknown3 =~= b.unknown3);
        assert(a.row(30) == b.row(30));
        assert(a.unknown4 =~= b.unknown4);
        assert(a.row(31) == b.row(31));
        assert(a.covered_by =~= b.covered_by);
        assert forall|i: int| 0 <= i < 32 implies #[trigger] a.magic@[i] == b.magic@[i] by {
            assert(a.row(i + 32) == b.row(i + 32));
            assert(a.magic@[i] =~= b.magic@[i]);
        }
        assert(a.magic =~= b.magic);
        assert(a.row(64) == b.row(64));
        assert(a.walk_frames =~= b.walk_frames);
        assert(a.row(65) == b.row(65));
        assert(a.cooperative_magic =~= b.cooperative_magic);
        assert(a.row(66) == b.row(66));
        assert(a.unknown5 =~= b.unknown5);
        assert(a.row(67) == b.row(67));
        assert(a.unknown6 =~= b.unknown6);
        assert(a.row(68) == b.row(68));
        assert(a.death_sound =~= b.death_sound);
        assert(a.row(69) == b.row(69));
        assert(a.attack_sound =~= b.attack_sound);
        assert(a.row(70) == b.row(70));
        assert(a.weapon_sound =~= b.weapon_sound);
        assert(a.row(71) == b.row(71));
        assert(a.critical_sound =~= b.critical_sound);
        assert(a.row(72) == b.row(72));
        assert(a.magic_sound =~= b.magic_sound);
        assert(a.row(73) == b.row(73));
        assert(a.cover_sound =~= b.cover_sound);
        assert(a.row(74) == b.row(74));
        assert(a.dying_sound =~= b.dying_sound);
    }

    pub fn read(r: &mut WordReader) -> (v: PlayerRoles)
        requires
            0 <= old(r).offset() <= usize::MAX - 900,
        ensures
            v.held_at(old(r).bytes(), old(r).offset()),
            final(r).advanced(old(r), 900),
    {
        let mut p: PlayerRoles = PlayerRoles::default();
        let ghost buf = r.bytes();
        let ghost at = r.offset();
        p.avatar = records::read_row(r);
        p.sprite_num_in_battle = records::read_row(r);
        p.sprite_num = records::read_row(r);
        p.name = records::read_row(r);
        p.attack_all = records::read_row(r);
        p.unknown1 = records::read_row(r);
        p.level = records::read_row(r);
        p.max_hp = records::read_row(r);
        p.max_mp = records::read_row(r);
        p.hp = records::read_row(r);
        p.mp = records::read_row(r);
        let ghost before = p;
        for i in 0..6usize
            invariant
                r.bytes() == buf,
                r.offset() == at + 132 + 12 * i,
                0 <= at <= usize::MAX - 900,
                p == (PlayerRoles { equipment: p.equipment, ..before }),
                forall|k: int| 0 <= k < i ==> (#[trigger] p.equipment@[k])@ == wordio::words(buf, at + 132 + 12 * k, 6),
        {
            p.equipment[i] = records::read_row(r);
        }
        p.attack_strength = records::read_row(r);
        p.magic_strength = records::read_row(r);
        p.defense = records::read_row(r);
        p.dexterity = records::read_row(r);
        p.flee_rate = records::read_row(r);
        p.poison_resistance = records::read_row(r);
        let ghost before = p;
        for i in 0..5usize
            invariant
                r.bytes() == buf,
                r.offset() == at + 276 + 12 * i,
                0 <= at <= usize::MAX - 900,
                p == (PlayerRoles { elemental_resistance: p.elemental_resistance, ..before }),
                forall|k: int| 0 <= k < i ==> (#[trigger] p.elemental_resistance@[k])@ == wordio::words(buf, at + 276 + 12 * k, 6),
        {
            p.elemental_resistance[i] = records::read_row(r);
        }
        p.unknown2 = records::read_row(r);
        p.unknown3 = records::read_row(r);
        p.unknown4 = records::read_row(r);
        p.covered_by = records::read_row(r);
        let ghost before = p;
        for i in 0..32usize
            invariant
                r.bytes() == buf,
                r.offset() == at + 384 + 12 * i,
                0 <= at <= usize::MAX - 900,
                p == (PlayerRoles { magic: p.magic, ..before }),
                forall|k: int| 0 <= k < i ==> (#[trigger] p.magic@[k])@ == wordio::words(buf, at + 384 + 12 * k, 6),
        {
            p.magic[i] = records::read_row(r);
        }
        p.walk_frames = records::read_row(r);
        p.cooperative_magic = records::read_row(r);
        p.unknown5 = records::read_row(r);
        p.unknown6 = records::read_row(r);
        p.death_sound = records::read_row(r);
        p.attack_sound = records::read_row(r);
        p.weapon_sound = records::read_row(r);
        p.critical_sound = records::read_row(r);
        p.magic_sound = records::read_row(r);
        p.cover_sound = records::read_row(r);
        p.dying_sound = records::read_row(r);
        p
    }

    /// Row `k` of the table.
    fn stored_row(&self, k: usize) -> (row: [u16; 6])
        requires
            k < 75,
        ensures
            row@ == self.row(k as int),
    {
        match k {
            0 => self.avatar,
            1 => self.sprite_num_in_battle,
            2 => self.sprite_num,
            3 => self.name,
            4 => self.attack_all,
            5 => self.unknown1,
            6 => self.level,
            7 => self.max_hp,
            8 => self.max_mp,
            9 => self.hp,
            10 => self.mp,
            11..=16 => self.equipment[k - 11],
            17 => self.attack_strength,
            18 => self.magic_strength,
            19 => self.defense,
            20 => self.dexterity,
            21 => self.flee_rate,
            22 => self.poison_resistance,
            23..=27 => self.elemental_resistance[k - 23],
            28 => self.unknown2,
            29 => self.unknown3,
            30 => self.unknown4,
            31 => self.covered_by,
            32..=63 => self.magic[k - 32],
            64 => self.walk_frames,
            65 => self.cooperative_magic,
            66 => self.unknown5,
            67 => self.unknown6,
            68 => self.death_sound,
            69 => self.attack_sound,
            70 => self.weapon_sound,
            71 => self.critical_sound,
            72 => self.magic_sound,
            73 => self.cover_sound,
            _ => self.dying_sound,
        }
    }

    pub fn write(&self, w: &mut WordWriter)
        ensures
            final(w).grew(old(w), 900),
            self.held_at(final(w).buf@, old(w).buf@.len() as int),
    {
        let ghost start: int = w.buf@.len() as int;
        for k in 0..75usize
            invariant
                start == old(w).buf@.len(),
                w.grew(old(w), 12 * k),
                forall|j: int| 0 <= j < k ==> #[trigger] self.row(j) == wordio::words(w.buf@, start + 12 * j, 6),
        {
            let ghost mid = w.buf@;
            let row: [u16; 6] = self.stored_row(k);
            records::write_row(w, &row);
            proof {
                wordio::lemma_words_kept(mid, w.buf@);
            }
        }
    }

    /// Zero the column of `role` in every row.
    pub fn clear_role_column(&mut self, role: usize)
        requires
            role < MAX_PLAYER_ROLES,
        ensures
            forall|k: int| 0 <= k < 75 ==> #[trigger] final(self).row(k) == old(self).row(k).update(role as int, 0),
    {
        self.avatar[role] = 0;
        self.sprite_num_in_battle[role] = 0;
        self.sprite_num[role] = 0;
        self.name[role] = 0;
        self.attack_all[role] = 0;
        self.unknown1[role] = 0;
        self.level[role] = 0;
        self.max_hp[role] = 0;
        self.max_mp[role] = 0;
        self.hp[role] = 0;
        self.mp[role] = 0;
        let ghost before_equipment = *self;
        for i in 0..6usize
            invariant
                role < MAX_PLAYER_ROLES,
                *self == (PlayerRoles { equipment: self.equipment, ..before_equipment }),
                forall|k: int| 0 <= k < i ==> (#[trigger] self.equipment@[k])@ == before_equipment.equipment@[k]@.update(role as int, 0),
                forall|k: int| i <= k < 6 ==> #[trigger] self.equipment@[k] == before_equipment.equipment@[k],
        {
            self.equipment[i][role] = 0;
        }
        self.attack_strength[role] = 0;
        self.magic_strength[role] = 0;
        self.defense[role] = 0;
        self.dexterity[role] = 0;
        self.flee_rate[role] = 0;
        self.poison_resistance[role] = 0;
        let ghost before_elemental_resistance = *self;
        for i in 0..5usize
            invariant
                role < MAX_PLAYER_ROLES,
                *self == (PlayerRoles { elemental_resistance: self.elemental_resistance, ..before_elemental_resistance }),
                forall|k: int| 0 <= k < i ==> (#[trigger] self.elemental_resistance@[k])@ == before_elemental_resistance.elemental_resistance@[k]@.update(role as int, 0),
                forall|k: int| i <= k < 5 ==> #[trigger] self.elemental_resistance@[k] == before_elemental_resistance.elemental_resistance@[k],
        {
            self.elemental_resistance[i][role] = 0;
        }
        self.unknown2[role] = 0;
        self.unknown3[role] = 0;
        self.unknown4[role] = 0;
        self.covered_by[role] = 0;
        let ghost before_magic = *self;
        for i in 0..32usize
            invariant
                role < MAX_PLAYER_ROLES,
                *self == (PlayerRoles { magic: self.magic, ..before_magic }),
                forall|k: int| 0 <= k < i ==> (#[trigger] self.magic@[k])@ == before_magic.magic@[k]@.update(role as int, 0),
                forall|k: int| i <= k < 32 ==> #[trigger] self.magic@[k] == before_magic.magic@[k],
        {
            self.magic[i][role] = 0;
        }
        self.walk_frames[role] = 0;
        self.cooperative_magic[role] = 0;
        self.unknown5[role] = 0;
        self.unknown6[role] = 0;
        self.death_sound[role] = 0;
        self.attack_sound[role] = 0;
        self.weapon_sound[role] = 0;
        self.critical_sound[role] = 0;
        self.magic_sound[role] = 0;
        self.cover_sound[role] = 0;
        self.dying_sound[role] = 0;
    }
}

/// Clearing a role's column a second time changes nothing.
pub proof fn law_clearing_a_column_is_idempotent(a: PlayerRoles, b: PlayerRoles, c: PlayerRoles, role: int)
    requires
        0 <= role < 6,
        forall|k: int| 0 <= k < 75 ==> #[trigger] b.row(k) == a.row(k).update(role, 0),
        forall|k: int| 0 <= k < 75 ==> #[trigger] c.row(k) == b.row(k).update(role, 0),
    ensures
        c == b,
{
    assert forall|k: int| 0 <= k < 75 implies #[trigger] c.row(k) == b.row(k) by {
        assert(b.row(k) == a.row(k).update(role, 0));
        assert(c.row(k) =~= b.row(k));
    }
    PlayerRoles::lemma_rows_determine(c, b);
}

/// A role table that is written out and read back is unchanged.
pub proof fn law_roles_survive_storage(a: PlayerRoles, b: PlayerRoles, buf: Seq<u8>, at: int)
    requires
        a.held_at(buf, at),
        b.held_at(buf, at),
    ensures
        b == a,
{
    assert forall|k: int| 0 <= k < 75 implies #[trigger] b.row(k) == a.row(k) by {
        assert(a.row(k) == wordio::words(buf, at + 12 * k, 6));
    }
    PlayerRoles::lemma_rows_determine(b, a);
}

/// The experience of every role in every discipline.
#[derive(Clone, Copy, Debug, PartialEq, Eq)]
pub struct AllExperience {
    pub primary_exp: [Experience; MAX_PLAYER_ROLES],
    pub health_exp: [Experience; MAX_PLAYER_ROLES],
    pub magic_exp: [Experience; MAX_PLAYER_ROLES],
    pub attack_exp: [Experience; MAX_PLAYER_ROLES],
    pub magic_power_exp: [Experience; MAX_PLAYER_ROLES],
    pub defense_exp: [Experience; MAX_PLAYER_ROLES],
    pub dexterity_exp: [Experience; MAX_PLAYER_ROLES],
    pub flee_exp: [Experience; MAX_PLAYER_ROLES],
}

impl Default for AllExperience {
    fn default() -> (v: AllExperience)
        ensures
            v.is_zero(),
    {
        let zeros: [Experience; 6] = [Experience { exp: 0, reserved: 0, level: 0, count: 0 }; 6];
        AllExperience {
            primary_exp: zeros,
            health_exp: zeros,
            magic_exp: zeros,
            attack_exp: zeros,
            magic_power_exp: zeros,
            defense_exp: zeros,
            dexterity_exp: zeros,
            flee_exp: zeros,
        }
    }
}

impl AllExperience {
    /// The table of discipline `g`, in the order in which they are stored.
    pub open spec fn group(self, g: int) -> Seq<Experience> {
        if g == 0 {
            self.primary_exp@
        } else if g == 1 {
            self.health_exp@
        } else if g == 2 {
            self.magic_exp@
        } else if g == 3 {
            self.attack_exp@
        } else if g == 4 {
            self.magic_power_exp@
        } else if g == 5 {
            self.defense_exp@
        } else if g == 6 {
            self.dexterity_exp@
        } else {
            self.flee_exp@
        }
    }

    /// Every entry is 0.
    pub open spec fn is_zero(self) -> bool {
        forall|g: int, j: int| 0 <= g < 8 && 0 <= j < 6 ==> #[trigger] self.group(g)[j] == Experience::zero()
    }

    /// The 48 bytes from `at` on hold the six entries of `group`.
    pub open spec fn group_held_at(group: Seq<Experience>, buf: Seq<u8>, at: int) -> bool {
        forall|j: int| 0 <= j < 6 ==> #[trigger] group[j] == Experience::decoded(buf, at + 8 * j)
    }

    /// The 192 words at byte offset `at` are those of these tables.
    pub open spec fn held_at(self, buf: Seq<u8>, at: int) -> bool {
        forall|g: int| 0 <= g < 8 ==> AllExperience::group_held_at(#[trigger] self.group(g), buf, at + 48 * g)
    }

    fn read_group(r: &mut WordReader) -> (g: [Experience; 6])
        requires
            0 <= old(r).offset() <= usize::MAX - 48,
        ensures
            AllExperience::group_held_at(g@, old(r).bytes(), old(r).offset()),
            final(r).advanced(old(r), 48),
    {
        [
            Experience::read(r),
            Experience::read(r),
            Experience::read(r),
            Experience::read(r),
            Experience::read(r),
            Experience::read(r),
        ]
    }

    pub(crate) fn read(r: &mut WordReader) -> (v: AllExperience)
        requires
            0 <= old(r).offset() <= usize::MAX - 384,
        ensures
            v.held_at(old(r).bytes(), old(r).offset()),
            final(r).advanced(old(r), 384),
    {
        AllExperience {
            primary_exp: Self::read_group(r),
            health_exp: Self::read_group(r),
            magic_exp: Self::read_group(r),
            attack_exp: Self::read_group(r),
            magic_power_exp: Self::read_group(r),
            defense_exp: Self::read_group(r),
            dexterity_exp: Self::read_group(r),
            flee_exp: Self::read_group(r),
        }
    }

    fn write_group(w: &mut WordWriter, g: &[Experience; 6])
        ensures
            final(w).grew(old(w), 48),
            AllExperience::group_held_at(g@, final(w).buf@, old(w).buf@.len() as int),
    {
        for i in 0..6usize
            invariant
                wordio::extends(old(w).buf@, w.buf@),
                w.buf@.len() == old(w).buf@.len() + 8 * i,
                forall|j: int| 0 <= j < i ==> #[trigger] g@[j] == Experience::decoded(w.buf@, old(w).buf@.len() + 8 * j),
        {
            let ghost mid = w.buf@;
            g[i].write(w);
            proof {
                wordio::lemma_words_kept(mid, w.buf@);
            }
        }
    }

    pub(crate) fn write(&self, w: &mut WordWriter)
        ensures
            final(w).grew(old(w), 384),
            self.held_at(final(w).buf@, old(w).buf@.len() as int),
    {
        let ghost start: int = w.buf@.len() as int;
        Self::write_group(w, &self.primary_exp);
        let ghost after_primary_exp = w.buf@;
        Self::write_group(w, &self.health_exp);
        let ghost after_health_exp = w.buf@;
        Self::write_group(w, &self.magic_exp);
        let ghost after_magic_exp = w.buf@;
        Self::write_group(w, &self.attack_exp);
        let ghost after_attack_exp = w.buf@;
        Self::write_group(w, &self.magic_power_exp);
        let ghost after_magic_power_exp = w.buf@;
        Self::write_group(w, &self.defense_exp);
        let ghost after_defense_exp = w.buf@;
        Self::write_group(w, &self.dexterity_exp);
        let ghost after_dexterity_exp = w.buf@;
        Self::write_group(w, &self.flee_exp);
        let ghost after_flee_exp = w.buf@;
        proof {
            wordio::lemma_words_kept(after_primary_exp, w.buf@);
            wordio::lemma_words_kept(after_health_exp, w.buf@);
            wordio::lemma_words_kept(after_magic_exp, w.buf@);
            wordio::lemma_words_kept(after_attack_exp, w.buf@);
            wordio::lemma_words_kept(after_magic_power_exp, w.buf@);
            wordio::lemma_words_kept(after_defense_exp, w.buf@);
            wordio::lemma_words_kept(after_dexterity_exp, w.buf@);
            wordio::lemma_words_kept(after_flee_exp, w.buf@);
        }
    }

    /// Tables held by the same bytes are equal.
    pub proof fn lemma_held_determine(a: AllExperience, b: AllExperience, buf: Seq<u8>, at: int)
        requires
            a.held_at(buf, at),
            b.held_at(buf, at),
        ensures
            a == b,
    {
        assert(AllExperience::group_held_at(a.group(0), buf, at + 0));
        assert(AllExperience::group_held_at(b.group(0), buf, at + 0));
        assert(a.primary_exp =~= b.primary_exp);
        assert(AllExperience::group_held_at(a.group(1), buf, at + 48));
        assert(AllExperience::group_held_at(b.group(1), buf, at + 48));
        assert(a.health_exp =~= b.health_exp);
        assert(AllExperience::group_held_at(a.group(2), buf, at + 96));
        assert(AllExperience::group_held_at(b.group(2), buf, at + 96));
        assert(a.magic_exp =~= b.magic_exp);
        assert(AllExperience::group_held_at(a.group(3), buf, at + 144));
        assert(AllExperience::group_held_at(b.group(3), buf, at + 144));
        assert(a.attack_exp =~= b.attack_exp);
        assert(AllExperience::group_held_at(a.group(4), buf, at + 192));
        assert(AllExperience::group_held_at(b.group(4), buf, at + 192));
        assert(a.magic_power_exp =~= b.magic_power_exp);
        assert(AllExperience::group_held_at(a.group(5), buf, at + 240));
        assert(AllExperience::group_held_at(b.group(5), buf, at + 240));
        assert(a.defense_exp =~= b.defense_exp);
        assert(AllExperience::group_held_at(a.group(6), buf, at + 288));
        assert(AllExperience::group_held_at(b.group(6), buf, at + 288));
        assert(a.dexterity_exp =~= b.dexterity_exp);
        assert(AllExperience::group_held_at(a.group(7), buf, at + 336));
        assert(AllExperience::group_held_at(b.group(7), buf, at + 336));
        assert(a.flee_exp =~= b.flee_exp);
    }
}

/// The table of roles is stored row by row, a word for each of the six roles:
/// their looks, names, levels and points, what they wear, their strengths, their
/// resistances, the magic they know, and their images and sounds.
pub proof fn law_roles_layout(t: PlayerRoles, buf: Seq<u8>, at: int, j: int, i: int)
    requires
        t.held_at(buf, at),
        0 <= j < 6,
        0 <= i < 32,
    ensures
        t.avatar@[j] == wordio::word_at(buf, at + 0 + 2 * j),
        t.sprite_num_in_battle@[j] == wordio::word_at(buf, at + 12 + 2 * j),
        t.sprite_num@[j] == wordio::word_at(buf, at + 24 + 2 * j),
        t.name@[j] == wordio::word_at(buf, at + 36 + 2 * j),
        t.attack_all@[j] == wordio::word_at(buf, at + 48 + 2 * j),
        t.unknown1@[j] == wordio::word_at(buf, at + 60 + 2 * j),
        t.level@[j] == wordio::word_at(buf, at + 72 + 2 * j),
        t.max_hp@[j] == wordio::word_at(buf, at + 84 + 2 * j),
        t.max_mp@[j] == wordio::word_at(buf, at + 96 + 2 * j),
        t.hp@[j] == wordio::word_at(buf, at + 108 + 2 * j),
        t.mp@[j] == wordio::word_at(buf, at + 120 + 2 * j),
        i < 6 ==> t.equipment@[i]@[j] == wordio::word_at(buf, at + 132 + 12 * i + 2 * j),
        t.attack_strength@[j] == wordio::word_at(buf, at + 204 + 2 * j),
        t.magic_strength@[j] == wordio::word_at(buf, at + 216 + 2 * j),
        t.defense@[j] == wordio::word_at(buf, at + 228 + 2 * j),
        t.dexterity@[j] == wordio::word_at(buf, at + 240 + 2 * j),
        t.flee_rate@[j] == wordio::word_at(buf, at + 252 + 2 * j),
        t.poison_resistance@[j] == wordio::word_at(buf, at + 264 + 2 * j),
        i < 5 ==> t.elemental_resistance@[i]@[j] == wordio::word_at(buf, at + 276 + 12 * i + 2 * j),
        t.unknown2@[j] == wordio::word_at(buf, at + 336 + 2 * j),
        t.unknown3@[j] == wordio::word_at(buf, at + 348 + 2 * j),
        t.unknown4@[j] == wordio::word_at(buf, at + 360 + 2 * j),
        t.covered_by@[j] == wordio::word_at(buf, at + 372 + 2 * j),
        i < 32 ==> t.magic@[i]@[j] == wordio::word_at(buf, at + 384 + 12 * i + 2 * j),
        t.walk_frames@[j] == wordio::word_at(buf, at + 768 + 2 * j),
        t.cooperative_magic@[j] == wordio::word_at(buf, at + 780 + 2 * j),
        t.unknown5@[j] == wordio::word_at(buf, at + 792 + 2 * j),
        t.unknown6@[j] == wordio::word_at(buf, at + 804 + 2 * j),
        t.death_sound@[j] == wordio::word_at(buf, at + 816 + 2 * j),
        t.attack_sound@[j] == wordio::word_at(buf, at + 828 + 2 * j),
        t.weapon_sound@[j] == wordio::word_at(buf, at + 840 + 2 * j),
        t.critical_sound@[j] == wordio::word_at(buf, at + 852 + 2 * j),
        t.magic_sound@[j] == wordio::word_at(buf, at + 864 + 2 * j),
        t.cover_sound@[j] == wordio::word_at(buf, at + 876 + 2 * j),
        t.dying_sound@[j] == wordio::word_at(buf, at + 888 + 2 * j),
{
    assert(t.row(0)[j] == wordio::words(buf, at + 12 * 0, 6)[j]);
    assert(t.row(1)[j] == wordio::words(buf, at + 12 * 1, 6)[j]);
    assert(t.row(2)[j] == wordio::words(buf, at + 12 * 2, 6)[j]);
    assert(t.row(3)[j] == wordio::words(buf, at + 12 * 3, 6)[j]);
    assert(t.row(4)[j] == wordio::words(buf, at + 12 * 4, 6)[j]);
    assert(t.row(5)[j] == wordio::words(buf, at + 12 * 5, 6)[j]);
    assert(t.row(6)[j] == wordio::words(buf, at + 12 * 6, 6)[j]);
    assert(t.row(7)[j] == wordio::words(buf, at + 12 * 7, 6)[j]);
    assert(t.row(8)[j] == wordio::words(buf, at + 12 * 8, 6)[j]);
    assert(t.row(9)[j] == wordio::words(buf, at + 12 * 9, 6)[j]);
    assert(t.row(10)[j] == wordio::words(buf, at + 12 * 10, 6)[j]);
    if i < 6 {
        assert(t.row(11 + i)[j] == wordio::words(buf, at + 12 * (11 + i), 6)[j]);
    }
    assert(t.row(17)[j] == wordio::words(buf, at + 12 * 17, 6)[j]);
    assert(t.row(18)[j] == wordio::words(buf, at + 12 * 18, 6)[j]);
    assert(t.row(19)[j] == wordio::words(buf, at + 12 * 19, 6)[j]);
    assert(t.row(20)[j] == wordio::words(buf, at + 12 * 20, 6)[j]);
    assert(t.row(21)[j] == wordio::words(buf, at + 12 * 21, 6)[j]);
    assert(t.row(22)[j] == wordio::words(buf, at + 12 * 22, 6)[j]);
    if i < 5 {
        assert(t.row(23 + i)[j] == wordio::words(buf, at + 12 * (23 + i), 6)[j]);
    }
    assert(t.row(28)[j] == wordio::words(buf, at + 12 * 28, 6)[j]);
    assert(t.row(29)[j] == wordio::words(buf, at + 12 * 29, 6)[j]);
    assert(t.row(30)[j] == wordio::words(buf, at + 12 * 30, 6)[j]);
    assert(t.row(31)[j] == wordio::words(buf, at + 12 * 31, 6)[j]);
    if i < 32 {
        assert(t.row(32 + i)[j] == wordio::words(buf, at + 12 * (32 + i), 6)[j]);
    }
    assert(t.row(64)[j] == wordio::words(buf, at + 12 * 64, 6)[j]);
    assert(t.row(65)[j] == wordio::words(buf, at + 12 * 65, 6)[j]);
    assert(t.row(66)[j] == wordio::words(buf, at + 12 * 66, 6)[j]);
    assert(t.row(67)[j] == wordio::words(buf, at + 12 * 67, 6)[j]);
    assert(t.row(68)[j] == wordio::words(buf, at + 12 * 68, 6)[j]);
    assert(t.row(69)[j] == wordio::words(buf, at + 12 * 69, 6)[j]);
    assert(t.row(70)[j] == wordio::words(buf, at + 12 * 70, 6)[j]);
    assert(t.row(71)[j] == wordio::words(buf, at + 12 * 71, 6)[j]);
    assert(t.row(72)[j] == wordio::words(buf, at + 12 * 72, 6)[j]);
    assert(t.row(73)[j] == wordio::words(buf, at + 12 * 73, 6)[j]);
    assert(t.row(74)[j] == wordio::words(buf, at + 12 * 74, 6)[j]);
}

/// Experience is stored discipline by discipline, in each for the six roles.
pub proof fn law_experience_tables_layout(t: AllExperience, buf: Seq<u8>, at: int, j: int)
    requires
        t.held_at(buf, at),
        0 <= j < 6,
    ensures
        t.primary_exp@[j] == Experience::decoded(buf, at + 0 + 8 * j),
        t.health_exp@[j] == Experience::decoded(buf, at + 48 + 8 * j),
        t.magic_exp@[j] == Experience::decoded(buf, at + 96 + 8 * j),
        t.attack_exp@[j] == Experience::decoded(buf, at + 144 + 8 * j),
        t.magic_power_exp@[j] == Experience::decoded(buf, at + 192 + 8 * j),
        t.defense_exp@[j] == Experience::decoded(buf, at + 240 + 8 * j),
        t.dexterity_exp@[j] == Experience::decoded(buf, at + 288 + 8 * j),
        t.flee_exp@[j] == Experience::decoded(buf, at + 336 + 8 * j),
{
    assert(AllExperience::group_held_at(t.group(0), buf, at + 48 * 0));
    assert(t.group(0)[j] == Experience::decoded(buf, at + 48 * 0 + 8 * j));
    assert(AllExperience::group_held_at(t.group(1), buf, at + 48 * 1));
    assert(t.group(1)[j] == Experience::decoded(buf, at + 48 * 1 + 8 * j));
    assert(AllExperience::group_held_at(t.group(2), buf, at + 48 * 2));
    assert(t.group(2)[j] == Experience::decoded(buf, at + 48 * 2 + 8 * j));
    assert(AllExperience::group_held_at(t.group(3), buf, at + 48 * 3));
    assert(t.group(3)[j] == Experience::decoded(buf, at + 48 * 3 + 8 * j));
    assert(AllExperience::group_held_at(t.group(4), buf, at + 48 * 4));
    assert(t.group(4)[j] == Experience::decoded(buf, at + 48 * 4 + 8 * j));
    assert(AllExperience::group_held_at(t.group(5), buf, at + 48 * 5));
    assert(t.group(5)[j] == Experience::decoded(buf, at + 48 * 5 + 8 * j));
    assert(AllExperience::group_held_at(t.group(6), buf, at + 48 * 6));
    assert(t.group(6)[j] == Experience::decoded(buf, at + 48 * 6 + 8 * j));
    assert(AllExperience::group_held_at(t.group(7), buf, at + 48 * 7));
    assert(t.group(7)[j] == Experience::decoded(buf, at + 48 * 7 + 8 * j));
}

} // verus!
