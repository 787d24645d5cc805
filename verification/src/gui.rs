//! The state behind the window and what each message does to it.
//!
//! The window itself is drawn elsewhere. Here a message changes the
//! state and names the work, if any, that is to be started for it.

use vstd::prelude::*;
use vstd::string::*;
use crate::selection::{
    first_index, is_selected, item_views, lemma_first_index, position, SourceItem,
};
use crate::text::{
    contains_text, copy_strings, decimal, occurs_in, push_decimal, text_view, views,
};
use crate::web::Source;

verus! {

/// What the window reports.
#[derive(Debug, Clone)]
pub enum Message {
    /// The box of a source was ticked (`true`) or cleared.
    ToggleSource(bool, String),
    /// The filter text was edited.
    OnInput(String),
    /// The button that starts a run was pressed.
    OnClick,
    /// The source list has arrived.
    OnFetchList(Vec<Source>),
    OnReqFailed,
    OnApplyBuildDone,
    OnApplyBuildFailed,
    /// The box that keeps old builds was ticked (`true`) or cleared.
    ToggleKeepOld(bool),
    /// The button that picks the game folder was pressed.
    OnSelectDir,
    /// A timer tick.
    Tick,
    /// The address of the local client was looked up.
    OnGetLcuAuth(String),
}

/// The work that a message starts.
#[derive(Debug, Clone, PartialEq, Eq)]
pub enum Command {
    /// Nothing is to be started.
    Idle,
    /// Run the pipeline for these sources into this folder.
    ApplyBuilds { sources: Vec<String>, dir: String, keep_old: bool },
    /// Ask for a folder, starting at this one.
    SelectDir { start: String },
    /// Look the address of the local client up.
    ParseAuth,
}

/// The state behind the window.
#[derive(Debug, Clone)]
pub struct App {
    pub items: Vec<SourceItem>,
    pub selected: Vec<String>,
    pub search: String,
    pub lol_dir: String,
    pub keep_old: bool,
    pub lcu_auth_url: String,
}

pub struct AppView {
    pub items: Seq<(Seq<char>, Seq<char>)>,
    pub selected: Seq<Seq<char>>,
    pub search: Seq<char>,
    pub lol_dir: Seq<char>,
    pub keep_old: bool,
    pub lcu_auth_url: Seq<char>,
}

pub enum MessageView {
    ToggleSource(bool, Seq<char>),
    OnInput(Seq<char>),
    OnClick,
    OnFetchList(Seq<(Seq<char>, Seq<char>)>),
    OnReqFailed,
    OnApplyBuildDone,
    OnApplyBuildFailed,
    ToggleKeepOld(bool),
    OnSelectDir,
    Tick,
    OnGetLcuAuth(Seq<char>),
}

pub enum CommandView {
    Idle,
    ApplyBuilds { sources: Seq<Seq<char>>, dir: Seq<char>, keep_old: bool },
    SelectDir { start: Seq<char> },
    ParseAuth,
}

/// One line of the list as it is to be shown: a source whose label
/// holds the filter text, and whether its box is ticked.
#[derive(Debug, Clone, PartialEq, Eq)]
pub struct Row {
    pub label: String,
    pub value: String,
    pub checked: bool,
}

impl View for Row {
    type V = (Seq<char>, Seq<char>, bool);

    open spec fn view(&self) -> (Seq<char>, Seq<char>, bool) {
        (self.label@, self.value@, self.checked)
    }
}

/// The views of a list of rows.
pub open spec fn row_views(rows: Seq<Row>) -> Seq<(Seq<char>, Seq<char>, bool)> {
    Seq::new(rows.len(), |i: int| rows[i]@)
}

/// The lines to show: in the order of the items, those whose label holds
/// the filter text, each ticked if its value is selected.
pub open spec fn rows_spec(
    items: Seq<(Seq<char>, Seq<char>)>,
    selected: Seq<Seq<char>>,
    search: Seq<char>,
) -> Seq<(Seq<char>, Seq<char>, bool)>
    decreases items.len(),
{
    if items.len() == 0 {
        Seq::empty()
    } else {
        let earlier = rows_spec(items.drop_last(), selected, search);
        let item = items.last();
        if occurs_in(item.0, search) {
            earlier.push((item.0, item.1, selected.contains(item.1)))
        } else {
            earlier
        }
    }
}

/// What stands where the folder is shown while none is chosen.
pub const NO_FOLDER: &'static str = "Please select LoL folder.";

/// The label and the value of each source of a list.
pub open spec fn listed(sources: Seq<Source>) -> Seq<(Seq<char>, Seq<char>)> {
    Seq::new(sources.len(), |i: int| (sources[i].label@, sources[i].value@))
}

impl View for App {
    type V = AppView;

    open spec fn view(&self) -> AppView {
        AppView {
            items: item_views(self.items@),
            selected: views(self.selected@),
            search: self.search@,
            lol_dir: self.lol_dir@,
            keep_old: self.keep_old,
            lcu_auth_url: self.lcu_auth_url@,
        }
    }
}

impl View for Message {
    type V = MessageView;

    open spec fn view(&self) -> MessageView {
        match self {
            Message::ToggleSource(checked, value) => MessageView::ToggleSource(*checked, value@),
            Message::OnInput(text) => MessageView::OnInput(text@),
            Message::OnClick => MessageView::OnClick,
            Message::OnFetchList(list) => MessageView::OnFetchList(listed(list@)),
            Message::OnReqFailed => MessageView::OnReqFailed,
            Message::OnApplyBuildDone => MessageView::OnApplyBuildDone,
            Message::OnApplyBuildFailed => MessageView::OnApplyBuildFailed,
            Message::ToggleKeepOld(checked) => MessageView::ToggleKeepOld(*checked),
            Message::OnSelectDir => MessageView::OnSelectDir,
            Message::Tick => MessageView::Tick,
            Message::OnGetLcuAuth(url) => MessageView::OnGetLcuAuth(url@),
        }
    }
}

impl View for Command {
    type V = CommandView;

    open spec fn view(&self) -> CommandView {
        match self {
            Command::Idle => CommandView::Idle,
            Command::ApplyBuilds { sources, dir, keep_old } => CommandView::ApplyBuilds {
                sources: views(sources@),
                dir: dir@,
                keep_old: *keep_old,
            },
            Command::SelectDir { start } => CommandView::SelectDir { start: start@ },
            Command::ParseAuth => CommandView::ParseAuth,
        }
    }
}

/// The items that stand in the list before the source list has arrived:
/// `Source 1` and `Source 2`, with the values `source-1` and `source-2`.
pub open spec fn placeholder(i: nat) -> (Seq<char>, Seq<char>) {
    ("Source "@ + decimal(i), "source-"@ + decimal(i))
}

/// Whether a message can be taken in a state: the box of a source can
/// only be cleared if the source is selected.
pub open spec fn accepts(state: AppView, message: MessageView) -> bool {
    message matches MessageView::ToggleSource(false, value) ==> state.selected.contains(value)
}

/// The state after a message, and the work that the message starts.
pub open spec fn update_spec(state: AppView, message: MessageView) -> (AppView, CommandView) {
    match message {
        MessageView::ToggleSource(true, value) => (
            AppView { selected: state.selected.push(value), ..state },
            CommandView::Idle,
        ),
        MessageView::ToggleSource(false, value) => (
            AppView {
                selected: state.selected.remove(first_index(state.selected, value)),
                ..state
            },
            CommandView::Idle,
        ),
        MessageView::OnInput(text) => (AppView { search: text, ..state }, CommandView::Idle),
        MessageView::OnClick => if state.selected.len() == 0 || state.lol_dir.len() == 0 {
            (state, CommandView::Idle)
        } else {
            (
                state,
                CommandView::ApplyBuilds {
                    sources: state.selected,
                    dir: state.lol_dir,
                    keep_old: state.keep_old,
                },
            )
        },
        MessageView::OnFetchList(list) => (AppView { items: list, ..state }, CommandView::Idle),
        MessageView::ToggleKeepOld(checked) => (
            AppView { keep_old: checked, ..state },
            CommandView::Idle,
        ),
        MessageView::OnSelectDir => (state, CommandView::SelectDir { start: state.lol_dir }),
        MessageView::Tick => (state, CommandView::ParseAuth),
        MessageView::OnGetLcuAuth(url) => if state.lcu_auth_url != url && url.len() > 0 {
            (AppView { lcu_auth_url: url, ..state }, CommandView::Idle)
        } else {
            (state, CommandView::Idle)
        },
        _ => (state, CommandView::Idle),
    }
}

/// The state after the folder dialog has closed: the folder that was
/// chosen is taken unless none was chosen or its name is empty.
pub open spec fn select_dir_spec(state: AppView, chosen: Option<Seq<char>>) -> AppView {
    match chosen {
        Some(folder) => if folder.len() > 0 {
            AppView { lol_dir: folder, ..state }
        } else {
            state
        },
        None => state,
    }
}

impl App {
    /// The state at the start: the two placeholder items, nothing
    /// selected, no folder, old builds not kept.
    pub fn new() -> (app: Self)
        ensures
            app@ == (AppView {
                items: seq![placeholder(1), placeholder(2)],
                selected: Seq::empty(),
                search: Seq::empty(),
                lol_dir: Seq::empty(),
                keep_old: false,
                lcu_auth_url: Seq::empty(),
            }),
    {
        let mut items: Vec<SourceItem> = Vec::new();
        let mut i: usize = 1;
        while i < 3
            invariant
                1 <= i <= 3,
                items@.len() == i - 1,
                forall|k: int| 0 <= k < items@.len() ==> (#[trigger] items@[k])@ == placeholder(
                    (k + 1) as nat,
                ),
            decreases 3 - i,
        {
            let mut label = String::from_str("Source ");
            push_decimal(&mut label, i);
            let mut value = String::from_str("source-");
            push_decimal(&mut value, i);
            items.push(SourceItem { name: label, value });
            i = i + 1;
        }
        let app = App {
            items,
            selected: Vec::new(),
            search: String::new(),
            lol_dir: String::new(),
            keep_old: false,
            lcu_auth_url: String::new(),
        };
        proof {
            assert(app@.items =~= seq![placeholder(1), placeholder(2)]);
            assert(app@.selected =~= Seq::empty());
        }
        app
    }

    /// Puts another list of items in the place of the present one.
    pub fn update_list(&mut self, items: Vec<SourceItem>)
        ensures
            final(self)@ == (AppView { items: item_views(items@), ..old(self)@ }),
    {
        self.items = items;
    }

    /// Takes a message: changes the state and names the work to start.
    pub fn update(&mut self, message: Message) -> (command: Command)
        requires
            accepts(old(self)@, message@),
        ensures
            (final(self)@, command@) == update_spec(old(self)@, message@),
    {
        match message {
            Message::ToggleSource(checked, value) => {
                if checked {
                    proof {
                        assert(views(self.selected@.push(value)) =~= views(self.selected@).push(
                            value@,
                        ));
                    }
                    self.selected.push(value);
                } else {
                    proof {
                        lemma_first_index(views(self.selected@), value@);
                    }
                    match position(&self.selected, &value) {
                        Some(at) => {
                            proof {
                                assert(views(self.selected@.remove(at as int)) =~= views(
                                    self.selected@,
                                ).remove(at as int));
                            }
                            self.selected.remove(at);
                        },
                        None => {
                            assert(false);
                        },
                    }
                }
                Command::Idle
            },
            Message::OnInput(text) => {
                self.search = text;
                Command::Idle
            },
            Message::OnClick => {
                if self.selected.len() == 0 || self.lol_dir.as_str().is_empty() {
                    return Command::Idle;
                }
                Command::ApplyBuilds {
                    sources: copy_strings(&self.selected),
                    dir: self.lol_dir.clone(),
                    keep_old: self.keep_old,
                }
            },
            Message::OnFetchList(list) => {
                let mut items: Vec<SourceItem> = Vec::new();
                let mut i: usize = 0;
                while i < list.len()
                    invariant
                        i <= list@.len(),
                        items@.len() == i,
                        forall|k: int|
                            0 <= k < i ==> (#[trigger] items@[k])@ == (
                                list@[k].label@,
                                list@[k].value@,
                            ),
                    decreases list@.len() - i,
                {
                    items.push(
                        SourceItem { name: list[i].label.clone(), value: list[i].value.clone() },
                    );
                    i = i + 1;
                }
                assert(item_views(items@) =~= listed(list@));
                self.update_list(items);
                Command::Idle
            },
            Message::OnReqFailed => Command::Idle,
            Message::OnApplyBuildDone => Command::Idle,
            Message::OnApplyBuildFailed => Command::Idle,
            Message::ToggleKeepOld(checked) => {
                self.keep_old = checked;
                Command::Idle
            },
            Message::OnSelectDir => Command::SelectDir { start: self.lol_dir.clone() },
            Message::Tick => Command::ParseAuth,
            Message::OnGetLcuAuth(url) => {
                if self.lcu_auth_url != url && !url.as_str().is_empty() {
                    self.lcu_auth_url = url;
                }
                Command::Idle
            },
        }
    }

    /// The lines of the list as they are to be shown.
    pub fn visible_rows(&self) -> (rows: Vec<Row>)
        ensures
            row_views(rows@) == rows_spec(self@.items, self@.selected, self@.search),
    {
        let ghost items = item_views(self.items@);
        let mut rows: Vec<Row> = Vec::new();
        let mut i: usize = 0;
        assert(items.take(0) =~= Seq::<(Seq<char>, Seq<char>)>::empty());
        assert(row_views(rows@) =~= Seq::<(Seq<char>, Seq<char>, bool)>::empty());
        while i < self.items.len()
            invariant
                i <= self.items@.len(),
                items == item_views(self.items@),
                row_views(rows@) == rows_spec(
                    items.take(i as int),
                    views(self.selected@),
                    self.search@,
                ),
            decreases self.items@.len() - i,
        {
            proof {
                assert(items.take(i + 1).drop_last() =~= items.take(i as int));
                assert(items.take(i + 1).last() == items[i as int]);
            }
            if contains_text(self.items[i].name.as_str(), self.search.as_str()) {
                let row = Row {
                    label: self.items[i].name.clone(),
                    value: self.items[i].value.clone(),
                    checked: is_selected(&self.selected, &self.items[i].value),
                };
                proof {
                    assert(row_views(rows@.push(row)) =~= row_views(rows@).push(row@));
                }
                rows.push(row);
            }
            i = i + 1;
        }
        assert(items.take(i as int) =~= items);
        rows
    }

    /// What stands where the folder is shown: the folder, or a request
    /// to choose one.
    pub fn dir_label(&self) -> (label: String)
        ensures
            label@ == (if self.lol_dir@.len() > 0 {
                self.lol_dir@
            } else {
                NO_FOLDER@
            }),
    {
        if !self.lol_dir.as_str().is_empty() {
            self.lol_dir.clone()
        } else {
            String::from_str(NO_FOLDER)
        }
    }

    /// Takes what the folder dialog gave.
    pub fn select_dir(&mut self, chosen: Option<String>)
        ensures
            final(self)@ == select_dir_spec(old(self)@, text_view(chosen)),
    {
        match chosen {
            Some(folder) => {
                if !folder.as_str().is_empty() {
                    self.lol_dir = folder;
                }
            },
            None => {},
        }
    }
}

/// The message for the outcome of the fetch of the source list.
pub fn result_handler<E>(ret: Result<Vec<Source>, E>) -> (message: Message)
    ensures
        ret matches Ok(list) ==> message == Message::OnFetchList(list),
        ret is Err ==> message is OnReqFailed,
{
    match ret {
        Ok(list) => Message::OnFetchList(list),
        Err(_err) => Message::OnReqFailed,
    }
}

/// The message for the outcome of a run.
pub fn apply_result_handler<T, E>(ret: Result<T, E>) -> (message: Message)
    ensures
        ret is Ok ==> message is OnApplyBuildDone,
        ret is Err ==> message is OnApplyBuildFailed,
{
    match ret {
        Ok(_) => Message::OnApplyBuildDone,
        Err(_e) => Message::OnApplyBuildFailed,
    }
}

/// The message for the outcome of the lookup of the local client.
pub fn lcu_auth_handler<E>(ret: Result<String, E>) -> (message: Message)
    ensures
        ret matches Ok(url) ==> message == Message::OnGetLcuAuth(url),
        ret is Err ==> message is OnReqFailed,
{
    match ret {
        Ok(s) => Message::OnGetLcuAuth(s),
        Err(_e) => Message::OnReqFailed,
    }
}

} // verus!
