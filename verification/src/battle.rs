//! What a running battle shows.

use vstd::prelude::*;

use crate::records::Enemy;

verus! {

#[derive(Clone, Copy, Debug, PartialEq, Eq, Structural)]
pub enum BattlePhase {
    SelectAction,
    PerformAction,
}

#[derive(Clone, Copy, Debug, PartialEq, Eq, Structural)]
pub enum BattleUiState {
    Wait,
    SelectMove,
    SelectTargetEnemy,
    SelectTargetPlayer,
    SelectTargetEnemyAll,
    SelectTargetPlayerAll,
}

#[derive(Clone, Copy, Debug, PartialEq, Eq, Structural)]
pub enum BattleMenuState {
    Main,
    MagicSelect,
    UseItemSelect,
    ThrowItemSelect,
    Misc,
    MiscItemSubMenu,
}

#[derive(Clone, Copy, Debug, PartialEq, Eq, Structural)]
pub enum BattleResult {
    Won,
    Lost,
    Fleed,
    Terminated,
    OnGoing,
    PreBattle,
    Pause,
}

#[derive(Clone, Copy, Debug, PartialEq, Eq, Structural)]
pub enum FighterState {
    Wait,
    Com,
    Act,
}

/// What the battle menus show.
pub struct BattleUi {
    pub state: BattleUiState,
    pub menu_state: BattleMenuState,
    pub cur_player_index: u16,
    pub selected_action: u16,
    pub selected_index: i32,
    pub auto_attack: bool,
    pub msg: String,
}

/// An enemy in a battle.
pub struct BattleEnemy {
    pub object_id: u16,
    pub e: Enemy,
    pub prev_hp: u16,
    pub state: FighterState,
    /// The time meter, as a decimal number.
    pub time_meter: String,
    pub pos: (i32, i32),
    pub status: [u16; 9],
}

/// A party member in a battle.
pub struct BattlePlayer {
    pub state: FighterState,
    /// The time meter, as a decimal number.
    pub time_meter: String,
    pub defending: bool,
}

/// A running battle.
pub struct Battle {
    pub phase: BattlePhase,
    pub ui: BattleUi,
    pub force: bool,
    pub flee: bool,
    pub is_boss: bool,
    pub enemy_cleared: bool,
    pub battle_result: BattleResult,
    pub exp_gained: i32,
    pub cash_gained: i32,
    pub max_enemy_index: u16,
    pub enemy: [BattleEnemy; 5],
    pub player: [BattlePlayer; 3],
}

} // verus!
