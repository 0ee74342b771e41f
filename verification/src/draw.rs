//! What menus draw.

use vstd::prelude::*;

use crate::ui::UiState;

verus! {

/// The color of a text in a menu.
#[derive(Clone, Copy, Debug, PartialEq, Eq, Structural)]
pub enum TextColor {
    /// The first color of the palette.
    Plain,
    Normal,
    Inactive,
    Selected,
    SelectedInactive,
    Equipped,
    Confirmed,
}

#[derive(Clone, Copy, Debug, PartialEq, Eq, Structural)]
pub enum NumberColor {
    Yellow,
    Cyan,
}

/// An image of the user interface.
#[derive(Clone, Copy, Debug, PartialEq, Eq, Structural)]
pub enum UiSprite {
    ItemBox,
    Cursor,
    Slash,
}

/// Something to draw.
#[derive(Clone, Copy, Debug, PartialEq, Eq, Structural)]
pub enum Draw {
    /// A box with so many rows and columns between its edges.
    BoxWithShadow { x: i32, y: i32, rows: i32, columns: i32 },
    /// A box of one line.
    SingleLineBox { x: i32, y: i32, len: i32 },
    /// A word, by its number.
    Word { word: u16, x: i32, y: i32, color: TextColor, shadow: bool, update: bool },
    /// A number, right-aligned.
    Number { value: u32, length: i32, x: i32, y: i32, tint: NumberColor },
    Sprite { sprite: UiSprite, x: i32, y: i32 },
    SpriteShadow { sprite: UiSprite, x: i32, y: i32 },
    /// The image of an item, by its number.
    ItemImage { bitmap: u16, x: i32, y: i32 },
    /// The box with the points of a role.
    PlayerInfo { role: u16, x: i32, y: i32 },
}

/// What a turn of a menu gives: a choice (0 for a menu that is left, the
/// largest number for none yet), and what to draw.
pub struct MenuTurn {
    pub choice: u16,
    pub draws: Vec<Draw>,
}

/// No choice is made yet.
pub const NO_CHOICE: u16 = 0xffff;

/// What to do behind a turn of a menu.
#[derive(Clone, Copy, Debug, PartialEq, Eq, Structural)]
pub enum MenuStep {
    /// Leave the menu with a choice.
    Leave { choice: u16 },
    /// Wait for the end of the frame.
    Wait,
    /// Take the next turn.
    Again,
    /// Tell that another item is selected, and take the next turn.
    Changed { item: u16 },
}

/// The movement of the selection in a list with three entries per line.
pub open spec fn moved(cur: int, delta: int, count: int) -> int {
    if cur + delta < 0 {
        0
    } else if cur + delta >= count {
        if count > 0 {
            count - 1
        } else {
            0
        }
    } else {
        cur + delta
    }
}

/// A selection that was moved is one of the entries, if there are any.
pub proof fn law_selection_stays_in_list(cur: int, delta: int, count: int)
    requires
        count >= 0,
    ensures
        0 <= moved(cur, delta, count),
        count > 0 ==> moved(cur, delta, count) < count,
        count == 0 ==> moved(cur, delta, count) == 0,
{
}

/// The menu that the user interface shows is another one, and nothing else.
pub open spec fn only_menu_changed(before: UiState, after: UiState) -> bool {
    after == (UiState { agent_menu: after.agent_menu, ..before })
}

pub(crate) fn push_all(list: &mut Vec<Draw>, more: &Vec<Draw>)
    ensures
        final(list)@ == old(list)@ + more@,
{
    let ghost before = list@;
    assert(list@ =~= before + more@.take(0));
    for i in 0..more.len()
        invariant
            list@ == before + more@.take(i as int),
    {
        list.push(more[i]);
        assert(list@ =~= before + more@.take(i + 1));
    }
    assert(more@.take(more@.len() as int) =~= more@);
}

/// A selection moves as far as it is asked to, and not past the ends of the
/// list.
pub proof fn law_selection_moves_as_asked(cur: int, delta: int, count: int)
    requires
        count > 0,
    ensures
        0 <= cur + delta < count ==> moved(cur, delta, count) == cur + delta,
        cur + delta < 0 ==> moved(cur, delta, count) == 0,
        cur + delta >= count ==> moved(cur, delta, count) == count - 1,
{
}

} // verus!
