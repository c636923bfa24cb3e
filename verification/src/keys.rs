//! What a key press does, decided before anything is done: Ctrl+C quits
//! from anywhere, help is modal, paging is one gesture in every scrolling
//! view, and the board maps its own keys to its actions. The caller performs
//! the step it gets back.
use vstd::prelude::*;

verus! {

/// A key, as the terminal reports it.
#[derive(Clone, Copy, Debug, PartialEq, Eq, Structural)]
pub enum Key {
    Char(char),
    Esc,
    Enter,
    Tab,
    BackTab,
    Left,
    Right,
    Up,
    Down,
    PageUp,
    PageDown,
    Home,
    End,
    Other,
}

/// The view that has the keyboard; a zoom counts as a list only on its
/// PLAYS and STATS tabs.
#[derive(Clone, Copy, Debug, PartialEq, Eq, Structural)]
pub enum ViewKind {
    Board,
    ZoomOverview,
    ZoomList,
    PlaysFeed,
    Standings,
    ConfigView,
    ThemePicker,
    Tv,
}

/// How far a page gesture moves the view's scroll or selection.
#[derive(Clone, Copy, Debug, PartialEq, Eq, Structural)]
pub enum Scroll {
    /// Half of what the last frame showed, down (positive) or up.
    By(i32),
    /// To the first row.
    Start,
    /// To the last row.
    End,
}

/// What one key press does.
#[derive(Clone, Copy, Debug, PartialEq, Eq, Structural)]
pub enum KeyStep {
    Quit,
    CloseHelp,
    /// Nothing: help is open and the key is not one that closes it.
    Inert,
    Page(Scroll),
    /// The view's own handler takes the key.
    ToView,
}

/// The views that scroll a list.
pub open spec fn pageable(view: ViewKind) -> bool {
    match view {
        ViewKind::Board | ViewKind::PlaysFeed | ViewKind::Standings | ViewKind::ZoomList => true,
        _ => false,
    }
}

/// The page gesture a key makes, if any: PgDn / Ctrl-d and PgUp / Ctrl-u
/// move half a page (`page_rows` is what the last frame showed, never taken
/// below two rows), Home / `g` and End / `G` go to the ends.
pub open spec fn page_gesture(key: Key, ctrl: bool, page_rows: u16) -> Option<Scroll> {
    let half = (if page_rows < 2 { 2 } else { page_rows as int }) / 2;
    match key {
        Key::PageDown => Some(Scroll::By(half as i32)),
        Key::PageUp => Some(Scroll::By(-half as i32)),
        Key::Char(c) if c == 'd' && ctrl => Some(Scroll::By(half as i32)),
        Key::Char(c) if c == 'u' && ctrl => Some(Scroll::By(-half as i32)),
        Key::Home => Some(Scroll::Start),
        Key::Char(c) if c == 'g' && !ctrl => Some(Scroll::Start),
        Key::End => Some(Scroll::End),
        Key::Char(c) if c == 'G' && !ctrl => Some(Scroll::End),
        _ => None,
    }
}

/// One key press: Ctrl+C quits whatever is open; while help is open only
/// Esc, `?` and `q` do anything, and they close it; a page gesture in a
/// scrolling view pages it; every other key goes to the view.
pub open spec fn key_step_spec(help_open: bool, view: ViewKind, key: Key, ctrl: bool, page_rows: u16) -> KeyStep {
    if ctrl && key == Key::Char('c') {
        KeyStep::Quit
    } else if help_open {
        if key == Key::Esc || key == Key::Char('?') || key == Key::Char('q') {
            KeyStep::CloseHelp
        } else {
            KeyStep::Inert
        }
    } else if pageable(view) && page_gesture(key, ctrl, page_rows) is Some {
        KeyStep::Page(page_gesture(key, ctrl, page_rows).unwrap())
    } else {
        KeyStep::ToView
    }
}

fn gesture(key: Key, ctrl: bool, page_rows: u16) -> (r: Option<Scroll>)
    ensures
        r == page_gesture(key, ctrl, page_rows),
{
    let rows: u16 = if page_rows < 2 {
        2
    } else {
        page_rows
    };
    let half: i32 = (rows / 2) as i32;
    match key {
        Key::PageDown => Some(Scroll::By(half)),
        Key::PageUp => Some(Scroll::By(-half)),
        Key::Home => Some(Scroll::Start),
        Key::End => Some(Scroll::End),
        Key::Char(c) => {
            if c == 'd' && ctrl {
                Some(Scroll::By(half))
            } else if c == 'u' && ctrl {
                Some(Scroll::By(-half))
            } else if c == 'g' && !ctrl {
                Some(Scroll::Start)
            } else if c == 'G' && !ctrl {
                Some(Scroll::End)
            } else {
                None
            }
        },
        _ => None,
    }
}

/// Decides what a key press does.
pub fn key_step(help_open: bool, view: ViewKind, key: Key, ctrl: bool, page_rows: u16) -> (r: KeyStep)
    ensures
        r == key_step_spec(help_open, view, key, ctrl, page_rows),
{
    if ctrl && key == Key::Char('c') {
        return KeyStep::Quit;
    }
    if help_open {
        return if key == Key::Esc || key == Key::Char('?') || key == Key::Char('q') {
            KeyStep::CloseHelp
        } else {
            KeyStep::Inert
        };
    }
    let scrolls = match view {
        ViewKind::Board | ViewKind::PlaysFeed | ViewKind::Standings | ViewKind::ZoomList => true,
        _ => false,
    };
    if scrolls {
        match gesture(key, ctrl, page_rows) {
            Some(s) => return KeyStep::Page(s),
            None => {},
        }
    }
    KeyStep::ToView
}

/// What a key does on the board.
#[derive(Clone, Copy, Debug, PartialEq, Eq, Structural)]
pub enum BoardAction {
    /// Next (1) or previous (-1i8) tab.
    CycleTab(i8),
    /// Selection down (1) or up (-1i8), wrapping.
    MoveSelected(i8),
    TogglePin,
    Zoom,
    ClearFilter,
    ToggleFavorite,
    /// The tab's viewed date, a day back (-1i8) or forward (1).
    StepDate(i8),
    OpenHelp,
    CycleSort,
    OpenTv,
    OpenThemePicker,
    Refresh,
    Quit,
    Nothing,
}

/// The board's key map. Esc clears the filter when one is active and does
/// nothing otherwise.
pub open spec fn board_action_spec(key: Key, filter_active: bool) -> BoardAction {
    match key {
        Key::Tab | Key::Right | Key::Char('l') => BoardAction::CycleTab(1i8),
        Key::BackTab | Key::Left | Key::Char('h') => BoardAction::CycleTab(-1i8),
        Key::Down | Key::Char('j') => BoardAction::MoveSelected(1i8),
        Key::Up | Key::Char('k') => BoardAction::MoveSelected(-1i8),
        Key::Char(' ') => BoardAction::TogglePin,
        Key::Enter | Key::Char('z') => BoardAction::Zoom,
        Key::Esc => if filter_active {
            BoardAction::ClearFilter
        } else {
            BoardAction::Nothing
        },
        Key::Char('t') => BoardAction::ToggleFavorite,
        Key::Char('[') => BoardAction::StepDate(-1i8),
        Key::Char(']') => BoardAction::StepDate(1i8),
        Key::Char('?') => BoardAction::OpenHelp,
        Key::Char('s') => BoardAction::CycleSort,
        Key::Char('v') => BoardAction::OpenTv,
        Key::Char('c') => BoardAction::OpenThemePicker,
        Key::Char('r') => BoardAction::Refresh,
        Key::Char('q') => BoardAction::Quit,
        _ => BoardAction::Nothing,
    }
}

/// Maps a board key to its action.
pub fn board_action(key: Key, filter_active: bool) -> (r: BoardAction)
    ensures
        r == board_action_spec(key, filter_active),
{
    match key {
        Key::Tab | Key::Right | Key::Char('l') => BoardAction::CycleTab(1i8),
        Key::BackTab | Key::Left | Key::Char('h') => BoardAction::CycleTab(-1i8),
        Key::Down | Key::Char('j') => BoardAction::MoveSelected(1i8),
        Key::Up | Key::Char('k') => BoardAction::MoveSelected(-1i8),
        Key::Char(' ') => BoardAction::TogglePin,
        Key::Enter | Key::Char('z') => BoardAction::Zoom,
        Key::Esc => if filter_active {
            BoardAction::ClearFilter
        } else {
            BoardAction::Nothing
        },
        Key::Char('t') => BoardAction::ToggleFavorite,
        Key::Char('[') => BoardAction::StepDate(-1i8),
        Key::Char(']') => BoardAction::StepDate(1i8),
        Key::Char('?') => BoardAction::OpenHelp,
        Key::Char('s') => BoardAction::CycleSort,
        Key::Char('v') => BoardAction::OpenTv,
        Key::Char('c') => BoardAction::OpenThemePicker,
        Key::Char('r') => BoardAction::Refresh,
        Key::Char('q') => BoardAction::Quit,
        _ => BoardAction::Nothing,
    }
}

/// Help is modal: while it is open no key but Ctrl+C quits — `q` only
/// closes it — and no key reaches a view or pages it.
pub proof fn lemma_help_is_modal(view: ViewKind, key: Key, ctrl: bool, page_rows: u16)
    ensures
        ({
            let r = key_step_spec(true, view, key, ctrl, page_rows);
            &&& r == KeyStep::Quit <==> (ctrl && key == Key::Char('c'))
            &&& r != KeyStep::ToView
            &&& !(r is Page)
            &&& (key == Key::Char('q') && !ctrl) ==> r == KeyStep::CloseHelp
        }),
{
}

/// Ctrl+C quits from every view, help open or not.
pub proof fn lemma_ctrl_c_always_quits(help_open: bool, view: ViewKind, page_rows: u16)
    ensures
        key_step_spec(help_open, view, Key::Char('c'), true, page_rows) == KeyStep::Quit,
{
}

/// A half page is never zero rows: even an empty pane moves by one.
pub proof fn lemma_half_page_moves(key: Key, ctrl: bool, page_rows: u16)
    ensures
        match page_gesture(key, ctrl, page_rows) {
            Some(Scroll::By(d)) => d != 0,
            _ => true,
        },
{
}

/// The two date keys walk the viewed date in opposite directions, a day
/// at a time: `[` one day back, `]` one day forward, filter or not.
pub proof fn lemma_date_keys_step_apart(filter_active: bool)
    ensures
        board_action_spec(Key::Char('['), filter_active) == BoardAction::StepDate(-1i8),
        board_action_spec(Key::Char(']'), filter_active) == BoardAction::StepDate(1i8),
{
}

/// Moving keys come in opposite pairs: the next and previous tab, the
/// selection down and up — whether a filter is on or not.
pub proof fn lemma_moves_come_in_opposite_pairs(filter_active: bool)
    ensures
        board_action_spec(Key::Tab, filter_active) == BoardAction::CycleTab(1i8),
        board_action_spec(Key::BackTab, filter_active) == BoardAction::CycleTab(-1i8),
        board_action_spec(Key::Char('l'), filter_active) == BoardAction::CycleTab(1i8),
        board_action_spec(Key::Char('h'), filter_active) == BoardAction::CycleTab(-1i8),
        board_action_spec(Key::Char('j'), filter_active) == BoardAction::MoveSelected(1i8),
        board_action_spec(Key::Char('k'), filter_active) == BoardAction::MoveSelected(-1i8),
{
}

/// Esc on the board clears a filter when one is on and otherwise does
/// nothing; `q` quits and `?` opens help either way.
pub proof fn lemma_esc_clears_only_a_filter(filter_active: bool)
    ensures
        board_action_spec(Key::Esc, true) == BoardAction::ClearFilter,
        board_action_spec(Key::Esc, false) == BoardAction::Nothing,
        board_action_spec(Key::Char('q'), filter_active) == BoardAction::Quit,
        board_action_spec(Key::Char('?'), filter_active) == BoardAction::OpenHelp,
        board_action_spec(Key::Char(' '), filter_active) == BoardAction::TogglePin,
        board_action_spec(Key::Char('t'), filter_active) == BoardAction::ToggleFavorite,
{
}

} // verus!
