use crate::index::{Index, IndexView};
use crate::open_file::OpenFileType;
use crate::state::{InputState, PanelType, State};
use vstd::prelude::*;

verus! {

/// An `OpenFilePanel` as plain values.
pub struct OpenFilePanelView {
    /// What a file is chosen for.
    pub open_file_type: OpenFileType,
    /// The focus as it was when the panel was opened.
    pub previous_focus: IndexView,
    /// The panels that were open when the panel was opened.
    pub previous_panels: Seq<PanelType>,
}

/// The panel in which a file is chosen. While it is open it is the only
/// panel, and it remembers what to return to.
pub struct OpenFilePanel {
    open_file_type: OpenFileType,
    previous_focus: Index,
    previous_panels: Vec<PanelType>,
}

impl View for OpenFilePanel {
    type V = OpenFilePanelView;

    closed spec fn view(&self) -> OpenFilePanelView {
        OpenFilePanelView {
            open_file_type: self.open_file_type,
            previous_focus: self.previous_focus@,
            previous_panels: self.previous_panels@,
        }
    }
}

/// `after` is `before` but for the panels, the focus and how input is taken.
pub open spec fn same_but_panels(before: State, after: State) -> bool {
    &&& after.music == before.music
    &&& after.time == before.time
    &&& after.select_mode == before.select_mode
    &&& after.piano_roll_mode == before.piano_roll_mode
    &&& after.unsaved_changes == before.unsaved_changes
}

/// `after` is `before` with the panel open for `open_file_type`: the panel
/// is the only panel and has the focus, undo and redo are closed, keys are
/// read as text where `typing` is set, and the panel remembers the panels and
/// the focus of `before`.
pub open spec fn is_enabled(
    before: State,
    after: State,
    panel: OpenFilePanelView,
    open_file_type: OpenFileType,
    typing: bool,
) -> bool {
    &&& same_but_panels(before, after)
    &&& after.input == (InputState {
        can_undo: false,
        alphanumeric_input: typing || before.input.alphanumeric_input,
        ..before.input
    })
    &&& after.panels@ == seq![PanelType::OpenFile]
    &&& after.focus@ == (IndexView { index: 0, length: 1 })
    &&& panel == (OpenFilePanelView {
        open_file_type,
        previous_focus: before.focus@,
        previous_panels: before.panels@,
    })
}

fn copy_panels(panels: &Vec<PanelType>) -> (copy: Vec<PanelType>)
    ensures
        copy@ == panels@,
{
    let mut copy: Vec<PanelType> = Vec::new();
    let mut i: usize = 0;
    while i < panels.len()
        invariant
            i <= panels.len(),
            copy@ == panels@.subrange(0, i as int),
        decreases panels.len() - i,
    {
        copy.push(panels[i]);
        proof {
            assert(copy@ =~= panels@.subrange(0, i + 1));
        }
        i += 1;
    }
    proof {
        assert(panels@.subrange(0, panels.len() as int) =~= panels@);
    }
    copy
}

impl OpenFilePanel {
    /// A panel that has not been opened.
    pub fn new() -> (panel: OpenFilePanel)
        ensures
            panel@ == (OpenFilePanelView {
                open_file_type: OpenFileType::SoundFont,
                previous_focus: IndexView { index: 0, length: 0 },
                previous_panels: Seq::<PanelType>::empty(),
            }),
    {
        OpenFilePanel {
            open_file_type: OpenFileType::SoundFont,
            previous_focus: Index::new(0, 0),
            previous_panels: Vec::new(),
        }
    }

    /// What a file is chosen for.
    pub fn get_open_file_type(&self) -> (open_file_type: OpenFileType)
        ensures
            open_file_type == self@.open_file_type,
    {
        self.open_file_type
    }

    /// Opens the panel.
    fn enable(&mut self, state: &mut State)
        ensures
            is_enabled(*old(state), *final(state), final(self)@, old(self)@.open_file_type, false),
    {
        state.input.can_undo = false;
        self.previous_panels = copy_panels(&state.panels);
        let mut panels: Vec<PanelType> = Vec::new();
        panels.push(PanelType::OpenFile);
        proof {
            assert(panels@ =~= seq![PanelType::OpenFile]);
        }
        state.panels = panels;
        self.previous_focus = state.focus;
        state.focus = Index::new(0, 1);
    }

    /// Opens the panel for a file to type the name of.
    fn enable_as_save(&mut self, state: &mut State)
        ensures
            is_enabled(*old(state), *final(state), final(self)@, old(self)@.open_file_type, true),
    {
        state.input.alphanumeric_input = true;
        self.enable(state);
    }

    /// Opens the panel to choose an instrument bank.
    pub fn soundfont(&mut self, state: &mut State)
        ensures
            is_enabled(*old(state), *final(state), final(self)@, OpenFileType::SoundFont, false),
    {
        self.open_file_type = OpenFileType::SoundFont;
        self.enable(state);
    }

    /// Opens the panel to choose saved music to read.
    pub fn read_save(&mut self, state: &mut State)
        ensures
            is_enabled(*old(state), *final(state), final(self)@, OpenFileType::ReadSave, true),
    {
        self.open_file_type = OpenFileType::ReadSave;
        self.enable_as_save(state);
    }

    /// Opens the panel to choose where the music is saved.
    pub fn write_save(&mut self, state: &mut State)
        ensures
            is_enabled(*old(state), *final(state), final(self)@, OpenFileType::WriteSave, true),
    {
        self.open_file_type = OpenFileType::WriteSave;
        self.enable_as_save(state);
    }

    /// Opens the panel to choose where the music is exported to.
    pub fn export(&mut self, state: &mut State)
        ensures
            is_enabled(*old(state), *final(state), final(self)@, OpenFileType::Export, false),
    {
        self.open_file_type = OpenFileType::Export;
        self.enable(state);
    }

    /// Closes the panel: the panels and the focus are as they were when it
    /// was opened, keys are no longer read as text, undo and redo are open.
    pub fn disable(&self, state: &mut State)
        ensures
            same_but_panels(*old(state), *final(state)),
            final(state).input == (InputState {
                can_undo: true,
                alphanumeric_input: false,
                ..old(state).input
            }),
            final(state).panels@ == self@.previous_panels,
            final(state).focus@ == self@.previous_focus,
    {
        state.input.alphanumeric_input = false;
        state.panels = copy_panels(&self.previous_panels);
        state.focus = self.previous_focus;
        state.input.can_undo = true;
    }
}

impl Default for OpenFilePanel {
    /// A panel that has not been opened.
    fn default() -> (panel: Self)
        ensures
            panel@ == (OpenFilePanelView {
                open_file_type: OpenFileType::SoundFont,
                previous_focus: IndexView { index: 0, length: 0 },
                previous_panels: Seq::<PanelType>::empty(),
            }),
    {
        OpenFilePanel::new()
    }
}

/// Opening the panel and closing it again leaves the panels, the focus and
/// the music as they were.
pub proof fn law_panel_returns(
    before: State,
    opened: State,
    closed: State,
    panel: OpenFilePanelView,
    open_file_type: OpenFileType,
    typing: bool,
)
    requires
        is_enabled(before, opened, panel, open_file_type, typing),
        same_but_panels(opened, closed),
        closed.panels@ == panel.previous_panels,
        closed.focus@ == panel.previous_focus,
    ensures
        same_but_panels(before, closed),
        closed.panels@ == before.panels@,
        closed.focus@ == before.focus@,
{
}

} // verus!
