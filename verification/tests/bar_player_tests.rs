use badapple::bar::ProgressBar;
use badapple::player::{frame_budget_nanos, remaining_wait_nanos, Player};

#[test]
fn bar_renders_share_and_percentage() {
    let mut bar = ProgressBar::new(100, 20, '-', '#');
    assert_eq!(bar.render(), "[--------------------] 0%");
    bar.update_bar(30);
    assert_eq!(bar.render(), "[######--------------] 30%");
}

#[test]
fn bar_clamps_past_the_maximum_and_keeps_its_width() {
    let mut bar = ProgressBar::new(10, 4, '.', '#');
    bar.update_bar(4);
    bar.update_bar(5);
    bar.update_bar(7);
    let shown = bar.render();
    assert_eq!(shown, "[####] 100%");
    assert_eq!(shown.chars().filter(|c| *c == '#' || *c == '.').count(), 4);
    bar.update_bar(3);
    assert_eq!(bar.render(), "[####] 100%");
}

#[test]
fn budget_and_wait_arithmetic() {
    assert_eq!(frame_budget_nanos(25), 40_000_000);
    assert_eq!(frame_budget_nanos(1), 1_000_000_000);
    assert_eq!(remaining_wait_nanos(40_000_000, 10_000_000), 30_000_000);
    assert_eq!(remaining_wait_nanos(40_000_000, 40_000_000), 0);
    assert_eq!(remaining_wait_nanos(40_000_000, 90_000_000), 0);
}

#[test]
fn playback_visits_every_frame_in_order_and_ends_at_full() {
    let mut player = Player::new(50, 25, '-', '#');
    assert_eq!(frame_budget_nanos(25), 40_000_000);
    let mut ids: Vec<usize> = Vec::new();
    while let Some(id) = player.advance() {
        ids.push(id);
    }
    let expected: Vec<usize> = (1..=50).collect();
    assert_eq!(ids, expected);
    assert_eq!(player.advance(), None);
    let shown = player.bar.render();
    assert!(shown.ends_with(" 100%"));
    assert_eq!(shown, "[#########################] 100%");
}

#[test]
fn playback_midway_percentage() {
    let mut player = Player::new(4, 8, '-', '#');
    player.advance();
    player.advance();
    assert_eq!(player.bar.render(), "[####----] 50%");
}
