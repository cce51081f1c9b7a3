use open_oswst::menu::{Menu, Outcome, Setting};

fn labels(menu: &Menu) -> Vec<&'static str> {
    menu.rows(|_, _| false).iter().map(|row| row.0).collect()
}

#[test]
fn opens_on_back_of_the_top_list() {
    let menu = Menu::new();
    assert_eq!(menu.title(), "Menu");
    assert_eq!(menu.cursor(), 0);
    assert_eq!(labels(&menu), vec!["Back", "Lock", "Repeater"]);
}

#[test]
fn cursor_stops_at_either_end() {
    let mut menu = Menu::new();
    menu.rotate(-1);
    assert_eq!(menu.cursor(), 0);
    menu.rotate(1);
    assert_eq!(menu.cursor(), 1);
    menu.rotate(5);
    assert_eq!(menu.cursor(), 2);
    menu.rotate(isize::MAX);
    assert_eq!(menu.cursor(), 2);
    menu.rotate(isize::MIN);
    assert_eq!(menu.cursor(), 0);
}

#[test]
fn turn_and_back() {
    let mut menu = Menu::new();
    menu.rotate(2);
    menu.rotate(-2);
    assert_eq!(menu.cursor(), 0);
}

#[test]
fn back_leaves_the_menu() {
    let mut menu = Menu::new();
    assert_eq!(menu.click(), Outcome::Exit);
}

#[test]
fn submenu_opens_on_back_and_back_returns() {
    let mut menu = Menu::new();
    menu.rotate(2);
    assert_eq!(menu.click(), Outcome::Stay);
    assert_eq!(menu.title(), "Repeater");
    assert_eq!(menu.cursor(), 0);
    assert_eq!(labels(&menu), vec!["Back", "true", "false"]);
    assert_eq!(menu.click(), Outcome::Stay);
    assert_eq!(menu.title(), "Menu");
    assert_eq!(menu.cursor(), 2);
}

#[test]
fn every_setting_can_be_given_either_value() {
    for (list, setting) in [(1, Setting::Lock), (2, Setting::Repeater)] {
        for (row, value) in [(1, true), (2, false)] {
            let mut menu = Menu::new();
            menu.rotate(list);
            assert_eq!(menu.click(), Outcome::Stay);
            menu.rotate(row);
            assert_eq!(menu.click(), Outcome::SetTo(setting, value));
            assert_eq!(menu.title(), "Menu");
            assert_eq!(menu.cursor(), list as usize);
        }
    }
}

#[test]
fn stray_clicks_set_nothing() {
    let mut menu = Menu::new();
    menu.rotate(1);
    for _ in 0..50 {
        assert_eq!(menu.click(), Outcome::Stay);
    }
}

#[test]
fn menu_is_open_until_exit() {
    // every run of 6 moves: a step either way, or a click
    for run in 0..729 {
        let mut menu = Menu::new();
        let mut rest = run;
        let mut left = false;
        for _ in 0..6 {
            match rest % 3 {
                0 => menu.rotate(1),
                1 => menu.rotate(-1),
                _ => left = menu.click() == Outcome::Exit,
            }
            rest /= 3;
            if left {
                break;
            }
            assert!(["Menu", "Lock", "Repeater"].contains(&menu.title()));
            assert_eq!(menu.rows(|_, _| false).len(), 3);
            assert!(menu.cursor() <= 2);
        }
        if !left {
            // Back, and Back once more from a list of choices
            let entered = menu.title() != "Menu";
            menu.rotate(-2);
            if entered {
                assert_eq!(menu.click(), Outcome::Stay);
                menu.rotate(-2);
            }
            assert_eq!(menu.click(), Outcome::Exit);
        }
    }
}

#[test]
fn stray_clicks_on_back_of_a_list_set_nothing() {
    let mut menu = Menu::new();
    menu.rotate(2);
    menu.click();
    menu.rotate(2);
    menu.rotate(-2);
    for _ in 0..50 {
        assert_eq!(menu.click(), Outcome::Stay);
    }
}

#[test]
fn rows_mark_the_present_value() {
    let mut menu = Menu::new();
    menu.rotate(1);
    menu.click();
    let rows = menu.rows(|setting, value| setting == Setting::Lock && !value);
    assert_eq!(rows, vec![("Back", false), ("true", false), ("false", true)]);
}
