//! Settings that the sketch board consults.
use vstd::prelude::*;

use crate::tools::Tools;

verus! {

/// What is done with a finished rendering.
#[derive(Debug, Clone, Copy, PartialEq, Eq, Structural)]
pub enum Action {
    SaveToClipboard,
    SaveToFile,
    SaveToFileAs,
    CopyFilepathToClipboard,
    Exit,
}

/// The tools that are reached by typing a single character.
#[derive(Debug, Clone)]
pub struct Keybinds {
    pub shortcuts: Vec<(char, Tools)>,
}

/// The tool of the first entry for `c`.
pub open spec fn tool_of(shortcuts: Seq<(char, Tools)>, c: char) -> Option<Tools>
    decreases shortcuts.len(),
{
    if shortcuts.len() == 0 {
        None
    } else if shortcuts[0].0 == c {
        Some(shortcuts[0].1)
    } else {
        tool_of(shortcuts.skip(1), c)
    }
}

impl Keybinds {
    pub open spec fn spec_get_tool(self, c: char) -> Option<Tools> {
        tool_of(self.shortcuts@, c)
    }

    pub fn get_tool(&self, c: char) -> (r: Option<Tools>)
        ensures
            r == self.spec_get_tool(c),
    {
        let mut k: usize = 0;
        assert(self.shortcuts@.skip(0) =~= self.shortcuts@);
        while k < self.shortcuts.len()
            invariant
                k <= self.shortcuts@.len(),
                tool_of(self.shortcuts@.skip(k as int), c) == self.spec_get_tool(c),
            decreases self.shortcuts@.len() - k,
        {
            if self.shortcuts[k].0 == c {
                return Some(self.shortcuts[k].1);
            }
            assert(self.shortcuts@.skip(k as int).skip(1) =~= self.shortcuts@.skip(k as int + 1));
            k = k + 1;
        }
        None
    }
}

#[derive(Debug, Clone)]
pub struct Configuration<S> {
    pub initial_tool: Tools,
    pub input_scale: Option<S>,
    pub zoom_factor: S,
    pub pan_step_size: S,
    pub auto_copy: bool,
    pub early_exit: bool,
    pub early_exit_save_as: bool,
    pub save_after_copy: bool,
    /// Results are only printed, and not shown on the desktop as well.
    pub disable_notifications: bool,
    pub copy_command: Option<String>,
    pub output_filename: Option<String>,
    pub actions_on_right_click: Vec<Action>,
    pub actions_on_escape: Vec<Action>,
    pub actions_on_enter: Vec<Action>,
    pub keybinds: Keybinds,
}

/// A character stands for the tool of the first entry that has it, and for none if no
/// entry has it.
pub proof fn lemma_tool_of_a_character(shortcuts: Seq<(char, Tools)>, c: char)
    ensures
        match tool_of(shortcuts, c) {
            Some(tool) => exists|i: int|
                {
                    &&& 0 <= i < shortcuts.len()
                    &&& #[trigger] shortcuts[i] == (c, tool)
                    &&& forall|j: int| 0 <= j < i ==> (#[trigger] shortcuts[j]).0 != c
                },
            None => forall|j: int| 0 <= j < shortcuts.len() ==> (#[trigger] shortcuts[j]).0 != c,
        },
    decreases shortcuts.len(),
{
    if shortcuts.len() > 0 {
        if shortcuts[0].0 == c {
            assert(shortcuts[0] == (c, shortcuts[0].1));
        } else {
            let rest = shortcuts.skip(1);
            lemma_tool_of_a_character(rest, c);
            match tool_of(shortcuts, c) {
                Some(tool) => {
                    let i = choose|i: int|
                        0 <= i < rest.len() && #[trigger] rest[i] == (c, tool) && forall|j: int|
                            0 <= j < i ==> (#[trigger] rest[j]).0 != c;
                    assert(shortcuts[i + 1] == (c, tool));
                    assert forall|j: int| 0 <= j < i + 1 implies (#[trigger] shortcuts[j]).0 != c by {
                        if j > 0 {
                            assert(rest[j - 1] == shortcuts[j]);
                        }
                    }
                },
                None => {
                    assert forall|j: int| 0 <= j < shortcuts.len() implies (
                    #[trigger] shortcuts[j]).0 != c by {
                        if j > 0 {
                            assert(rest[j - 1] == shortcuts[j]);
                        }
                    }
                },
            }
        }
    }
}

} // verus!
