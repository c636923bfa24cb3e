use gameday::keys::{board_action, key_step, BoardAction, Key, KeyStep, Scroll, ViewKind};

#[test]
fn ctrl_c_quits_even_behind_help() {
    assert_eq!(key_step(true, ViewKind::Board, Key::Char('c'), true, 20), KeyStep::Quit);
    assert_eq!(key_step(false, ViewKind::Tv, Key::Char('c'), true, 20), KeyStep::Quit);
}

#[test]
fn q_inside_help_closes_it_and_other_keys_are_inert() {
    assert_eq!(key_step(true, ViewKind::Board, Key::Char('q'), false, 20), KeyStep::CloseHelp);
    assert_eq!(key_step(true, ViewKind::Board, Key::Esc, false, 20), KeyStep::CloseHelp);
    assert_eq!(key_step(true, ViewKind::Board, Key::Char('?'), false, 20), KeyStep::CloseHelp);
    assert_eq!(key_step(true, ViewKind::Board, Key::PageDown, false, 20), KeyStep::Inert);
    assert_eq!(key_step(true, ViewKind::Board, Key::Char('j'), false, 20), KeyStep::Inert);
}

#[test]
fn paging_is_half_a_page_in_scrolling_views_only() {
    assert_eq!(key_step(false, ViewKind::Board, Key::PageDown, false, 20), KeyStep::Page(Scroll::By(10)));
    assert_eq!(key_step(false, ViewKind::PlaysFeed, Key::Char('u'), true, 21), KeyStep::Page(Scroll::By(-10)));
    assert_eq!(key_step(false, ViewKind::ZoomList, Key::PageDown, false, 0), KeyStep::Page(Scroll::By(1)));
    assert_eq!(key_step(false, ViewKind::Standings, Key::Char('g'), false, 20), KeyStep::Page(Scroll::Start));
    assert_eq!(key_step(false, ViewKind::Board, Key::End, false, 20), KeyStep::Page(Scroll::End));
    assert_eq!(key_step(false, ViewKind::ZoomOverview, Key::PageDown, false, 20), KeyStep::ToView);
    assert_eq!(key_step(false, ViewKind::ConfigView, Key::Char('g'), false, 20), KeyStep::ToView);
    assert_eq!(key_step(false, ViewKind::Board, Key::Char('q'), false, 20), KeyStep::ToView);
}

#[test]
fn the_board_keys() {
    assert_eq!(board_action(Key::Tab, false), BoardAction::CycleTab(1));
    assert_eq!(board_action(Key::Char('h'), false), BoardAction::CycleTab(-1));
    assert_eq!(board_action(Key::Char(' '), false), BoardAction::TogglePin);
    assert_eq!(board_action(Key::Enter, false), BoardAction::Zoom);
    assert_eq!(board_action(Key::Esc, true), BoardAction::ClearFilter);
    assert_eq!(board_action(Key::Esc, false), BoardAction::Nothing);
    assert_eq!(board_action(Key::Char('t'), false), BoardAction::ToggleFavorite);
    assert_eq!(board_action(Key::Char(']'), false), BoardAction::StepDate(1));
    assert_eq!(board_action(Key::Char('q'), false), BoardAction::Quit);
    assert_eq!(board_action(Key::Char('x'), false), BoardAction::Nothing);
}
