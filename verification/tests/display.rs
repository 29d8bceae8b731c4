use browser_engine::display::{
    BrowserWidget, Character, HEIGHT, HSTEP, SCROLL_STEP, VSTEP, WIDTH,
};

#[test]
fn window_has_its_size() {
    assert_eq!(BrowserWidget::get_width(), 800);
    assert_eq!(BrowserWidget::get_height(), 600);
    assert_eq!((WIDTH, HEIGHT, HSTEP, VSTEP, SCROLL_STEP), (800, 600, 13, 12, 100));
}

#[test]
fn empty_page() {
    let widget = BrowserWidget::new(String::new());
    assert_eq!(widget.display_list().len(), 0);
    assert_eq!(widget.scroll(), 0);
    assert_eq!(widget.max_scroll(), 0);
    assert_eq!(widget.visible(), Vec::new());
}

#[test]
fn characters_follow_each_other_on_a_line() {
    let widget = BrowserWidget::new("abc".to_string());
    assert_eq!(
        widget.display_list(),
        &vec![
            Character { x: 13, y: 12, ch: 'a' },
            Character { x: 25, y: 12, ch: 'b' },
            Character { x: 37, y: 12, ch: 'c' },
        ]
    );
    assert_eq!(widget.max_scroll(), 12);
    assert_eq!(Character::new(1, 2, 'x'), Character { x: 1, y: 2, ch: 'x' });
}

#[test]
fn line_feed_starts_a_new_line() {
    let widget = BrowserWidget::new("a\n\u{e9}\n".to_string());
    assert_eq!(
        widget.display_list(),
        &vec![
            Character { x: 13, y: 12, ch: 'a' },
            Character { x: 25, y: 12, ch: '\n' },
            Character { x: 13, y: 24, ch: '\u{e9}' },
            Character { x: 25, y: 24, ch: '\n' },
        ]
    );
    assert_eq!(widget.max_scroll(), 24);
}

#[test]
fn line_breaks_at_the_right_margin() {
    let text: String = std::iter::repeat('x').take(200).collect();
    let widget = BrowserWidget::new(text);
    let list = widget.display_list();
    assert_eq!(list[64], Character { x: 13 + 64 * 12, y: 12, ch: 'x' });
    assert_eq!(list[65], Character { x: 13, y: 24, ch: 'x' });
    assert_eq!(list[129], Character { x: 13 + 64 * 12, y: 24, ch: 'x' });
    assert_eq!(list[130], Character { x: 13, y: 36, ch: 'x' });
    assert_eq!(list[195], Character { x: 13, y: 48, ch: 'x' });
    assert_eq!(list[199], Character { x: 13 + 4 * 12, y: 48, ch: 'x' });
    assert_eq!(widget.max_scroll(), 48);
    assert!(list.iter().all(|c| 13 <= c.x && c.x < 800 - 13));
}

#[test]
fn wheel_scrolls_within_the_page() {
    let text: String = std::iter::repeat('\n').take(20).collect();
    let mut widget = BrowserWidget::new(text);
    assert_eq!(widget.max_scroll(), 240);
    assert_eq!(widget.wheel(0), 0);
    assert_eq!(widget.wheel(-1), 0);
    assert_eq!(widget.wheel(1), 100);
    assert_eq!(widget.wheel(i32::MAX), 200);
    assert_eq!(widget.wheel(7), 240);
    assert_eq!(widget.wheel(1), 240);
    assert_eq!(widget.scroll(), 240);
    assert_eq!(widget.wheel(0), 240);
    assert_eq!(widget.wheel(-1), 140);
    assert_eq!(widget.wheel(i32::MIN), 40);
    assert_eq!(widget.wheel(-1), 0);
    assert_eq!(widget.scroll(), 0);
}

#[test]
fn window_shows_the_lines_around_it() {
    let text: String = std::iter::repeat("a\n").take(100).collect();
    let mut widget = BrowserWidget::new(text);
    assert_eq!(widget.max_scroll(), 1200);
    let shown = widget.visible();
    assert_eq!(shown.len(), 100);
    assert_eq!(shown[0], Character { x: 13, y: 12, ch: 'a' });
    assert_eq!(shown[99], Character { x: 25, y: 600, ch: '\n' });
    widget.wheel(1);
    let shown = widget.visible();
    assert_eq!(shown.len(), 2 * 51);
    assert_eq!(shown[0], Character { x: 13, y: -4, ch: 'a' });
    assert_eq!(shown[101], Character { x: 25, y: 596, ch: '\n' });
    for _ in 0..20 {
        widget.wheel(1);
    }
    assert_eq!(widget.scroll(), 1200);
    let shown = widget.visible();
    assert_eq!(
        shown,
        vec![
            Character { x: 13, y: -12, ch: 'a' },
            Character { x: 25, y: -12, ch: '\n' },
            Character { x: 13, y: 0, ch: 'a' },
            Character { x: 25, y: 0, ch: '\n' },
        ]
    );
}

#[test]
fn page_that_fits_is_laid_out() {
    let widget = BrowserWidget::try_new("ab\nc".to_string()).unwrap();
    assert_eq!(widget.display_list(), BrowserWidget::new("ab\nc".to_string()).display_list());
    assert_eq!(widget.max_scroll(), 24);
    assert_eq!(widget.scroll(), 0);
    assert!(BrowserWidget::try_new(String::new()).is_some());
}
