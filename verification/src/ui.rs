//! Texts, and what dialogs and menus show.

use vstd::prelude::*;

verus! {

/// The game's words and messages as text.
pub struct Texts {
    pub words: Vec<String>,
    pub msgs: Vec<String>,
}

/// The text of an entry; empty where there is none.
pub open spec fn entry(table: Seq<String>, n: int) -> Seq<char> {
    if 0 <= n < table.len() {
        table[n]@
    } else {
        Seq::empty()
    }
}

impl Texts {
    /// Word number `n`.
    pub open spec fn word_text(&self, n: int) -> Seq<char> {
        entry(self.words@, n)
    }

    /// Message number `n`.
    pub open spec fn msg_text(&self, n: int) -> Seq<char> {
        entry(self.msgs@, n)
    }

    /// Word number `n`; empty where there is none.
    pub fn word(&self, n: usize) -> (s: String)
        ensures
            s@ == self.word_text(n as int),
    {
        if n < self.words.len() {
            self.words[n].clone()
        } else {
            String::new()
        }
    }

    /// Message number `n`; empty where there is none.
    pub fn msg(&self, n: usize) -> (s: String)
        ensures
            s@ == self.msg_text(n as int),
    {
        if n < self.msgs.len() {
            self.msgs[n].clone()
        } else {
            String::new()
        }
    }
}

/// An entry of a menu.
pub struct AgentMenuItem {
    pub value: u16,
    pub label: String,
    pub enabled: bool,
}

/// A menu that is open.
pub struct AgentMenu {
    pub kind: String,
    pub index: usize,
    pub items: Vec<AgentMenuItem>,
}

/// What dialogs and menus show.
pub struct UiState {
    pub in_dialog: bool,
    pub current_dialog_line: i32,
    pub agent_dialog_lines: Vec<String>,
    pub agent_dialog_speaker: String,
    pub agent_menu: Option<AgentMenu>,
    /// Waits for a key are answered at once.
    pub auto_confirm: bool,
}

impl UiState {
    /// No dialog and no menu is open.
    pub open spec fn is_idle(&self, auto_confirm: bool) -> bool {
        &&& !self.in_dialog
        &&& self.current_dialog_line == 0
        &&& self.agent_dialog_lines@.len() == 0
        &&& self.agent_dialog_speaker@.len() == 0
        &&& self.agent_menu is None
        &&& self.auto_confirm == auto_confirm
    }

    pub fn idle(auto_confirm: bool) -> (ui: UiState)
        ensures
            ui.is_idle(auto_confirm),
    {
        UiState {
            in_dialog: false,
            current_dialog_line: 0,
            agent_dialog_lines: Vec::new(),
            agent_dialog_speaker: String::new(),
            agent_menu: None,
            auto_confirm,
        }
    }
}

} // verus!
