use traffic_sim::levels::{all_levels, title_action, TitleAction};
use traffic_sim::paths::MapName;

#[test]
fn there_are_three_levels() {
    let all = all_levels();
    assert_eq!(all.len(), 3);
    assert_eq!(all[0].title, "Level 1 - a small neighborhood");
    assert!(all[0].map.same_as(&MapName::seattle("montlake")));
    assert_eq!(all[0].start, 53084814);
    assert_eq!(all[0].minimap_zoom, 1);
    assert_eq!(all[0].num_upzones, 0);
    assert_eq!(all[0].vehicles, vec!["sleigh"]);
    assert_eq!(all[1].title, "Level 2 - a small neighborhood with upzones");
    assert!(all[1].map.same_as(&MapName::seattle("montlake")));
    assert_eq!(all[1].start, 53084814);
    assert_eq!(all[1].minimap_zoom, 1);
    assert_eq!(all[1].num_upzones, 3);
    assert_eq!(all[1].vehicles, vec!["bike", "cargo bike", "sleigh"]);
    assert_eq!(all[2].title, "Level 3 - Magnolia");
    assert!(all[2].map.same_as(&MapName::seattle("ballard")));
    assert_eq!(all[2].start, 53117102);
    assert_eq!(all[2].minimap_zoom, 2);
    assert_eq!(all[2].num_upzones, 5);
    assert_eq!(all[2].vehicles, vec!["bike", "cargo bike", "sleigh"]);
}

#[test]
fn the_fixed_buttons_have_their_actions() {
    assert!(matches!(title_action("quit"), TitleAction::Quit));
    assert!(matches!(title_action("Instructions"), TitleAction::Instructions));
    assert!(matches!(title_action("Quit"), TitleAction::Unknown));
    assert!(matches!(title_action("instructions"), TitleAction::Unknown));
}

#[test]
fn a_button_that_opens_an_address_hands_it_on() {
    let action = title_action("open https://www.instagram.com/parallaxcreativedesign/");
    assert!(matches!(
        &action,
        TitleAction::OpenUrl(url) if url == "https://www.instagram.com/parallaxcreativedesign/"
    ));
    assert!(matches!(&title_action("open "), TitleAction::OpenUrl(url) if url.is_empty()));
    assert!(matches!(&title_action("open quit"), TitleAction::OpenUrl(url) if url == "quit"));
    assert!(matches!(title_action("open"), TitleAction::Unknown));
    assert!(matches!(title_action("opening"), TitleAction::Unknown));
}

#[test]
fn a_level_is_played_by_its_title() {
    assert!(matches!(title_action("Level 1 - a small neighborhood"), TitleAction::Play(0)));
    assert!(matches!(
        title_action("Level 2 - a small neighborhood with upzones"),
        TitleAction::Play(1)
    ));
    assert!(matches!(title_action("Level 3 - Magnolia"), TitleAction::Play(2)));
    assert!(matches!(title_action("Level 3"), TitleAction::Unknown));
    assert!(matches!(title_action("Level 4 - Ballard"), TitleAction::Unknown));
    assert!(matches!(title_action(""), TitleAction::Unknown));
    for (k, level) in all_levels().iter().enumerate() {
        assert!(matches!(title_action(level.title), TitleAction::Play(found) if found == k));
    }
}
