use loan_workflow::counter::{successor, Trio};
use loan_workflow::tabs::{Tab, TabBar};

#[test]
fn home_tab_is_selected_first() {
    let bar = TabBar::new();
    assert_eq!(bar.active(), Tab::Home);
    assert_eq!(bar.class(Tab::Home), "tab active");
    assert_eq!(bar.class(Tab::Settings), "tab");
    assert_eq!(bar.class(Tab::Stats), "tab");
}

#[test]
fn selecting_a_tab_marks_it_alone() {
    let all = [Tab::Home, Tab::Settings, Tab::Stats];
    for chosen in all {
        let mut bar = TabBar::new();
        bar.select(chosen);
        assert_eq!(bar.active(), chosen);
        for tab in all {
            assert_eq!(bar.class(tab), if tab == chosen { "tab active" } else { "tab" });
        }
    }
}

#[test]
fn tab_headings() {
    assert_eq!(Tab::Home.heading(), "Home");
    assert_eq!(Tab::Settings.heading(), "Settings");
    assert_eq!(Tab::Stats.heading(), "Stats");
}

#[test]
fn trio_starts_with_zero_alice_and_false() {
    let trio = Trio::new();
    assert_eq!(trio, Trio { count: 0, name: "Alice".to_string(), flag: false });
}

#[test]
fn trio_pieces_change_independently() {
    let mut trio = Trio::new();
    trio.increment();
    trio.increment();
    assert_eq!(trio, Trio { count: 2, name: "Alice".to_string(), flag: false });
    trio.decrement();
    trio.decrement();
    trio.decrement();
    assert_eq!(trio.count, -1);
    trio.set_name("Bob".to_string());
    assert_eq!(trio, Trio { count: -1, name: "Bob".to_string(), flag: false });
    trio.toggle();
    assert_eq!(trio, Trio { count: -1, name: "Bob".to_string(), flag: true });
    trio.toggle();
    trio.set_name("Carol".to_string());
    assert_eq!(trio, Trio { count: -1, name: "Carol".to_string(), flag: false });
}

#[test]
fn successor_adds_one() {
    assert_eq!(successor(0), 1);
    assert_eq!(successor(-1), 0);
    assert_eq!(successor(i32::MAX - 1), i32::MAX);
    assert_eq!(successor(i32::MIN), i32::MIN + 1);
}
