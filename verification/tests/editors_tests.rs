use slide_player::editors::{
    append_decimal, contains_action, contains_name, edit_outcome, fresh_slide_name,
    get_slide_entity_by_name, has_reference_to, make_numbered_name, remove_actions,
    slides_with_references, validate_name, AddSlidePrompt, DeleteSlideDialog, NameError,
    RenameDialog, RenameVerdict, SlideEditor, EDITOR_TTL, MADE_UP_NAMES,
};
use slide_player::images::Background;
use slide_player::model::{event_handler, Action, CrudEvent, Slide};

fn action(text: &str, target: &str) -> Action {
    Action { text: text.to_string(), target_slide: target.to_string() }
}

fn slide(name: &str, actions: Vec<Action>) -> Slide {
    Slide {
        name: name.to_string(),
        description: String::new(),
        background: String::new(),
        actions,
    }
}

fn house() -> Vec<Slide> {
    vec![
        slide("Living", vec![action("To the kitchen", "Kitchen"), action("Stay", "Living")]),
        slide("Kitchen", vec![action("Back", "Living")]),
        slide("Attic", vec![]),
    ]
}

#[test]
fn slides_are_found_by_name() {
    let slides = house();
    assert_eq!(get_slide_entity_by_name("Living", &slides), Some(0));
    assert_eq!(get_slide_entity_by_name("Attic", &slides), Some(2));
    assert_eq!(get_slide_entity_by_name("Cellar", &slides), None);
}

#[test]
fn an_empty_name_is_refused() {
    assert_eq!(validate_name("", None, &house()), Err(NameError::Empty));
    assert_eq!(validate_name("", Some(0), &house()), Err(NameError::Empty));
    assert_eq!(validate_name("", None, &Vec::new()), Err(NameError::Empty));
}

#[test]
fn a_name_in_use_is_refused() {
    assert_eq!(validate_name("Kitchen", None, &house()), Err(NameError::Taken));
    assert_eq!(validate_name("Kitchen", Some(0), &house()), Err(NameError::Taken));
    assert_eq!(validate_name("Kitchen", Some(2), &house()), Err(NameError::Taken));
}

#[test]
fn a_free_name_and_ones_own_name_are_accepted() {
    assert_eq!(validate_name("Cellar", None, &house()), Ok(()));
    assert_eq!(validate_name("Cellar", Some(1), &house()), Ok(()));
    assert_eq!(validate_name("Kitchen", Some(1), &house()), Ok(()));
    assert_eq!(validate_name("kitchen", None, &house()), Ok(()));
}

#[test]
fn name_errors_have_words() {
    assert_eq!(NameError::Empty.message(), "Name can not be empty");
    assert_eq!(NameError::Taken.message(), "There is another slide with that name");
}

#[test]
fn references_are_found() {
    let slides = house();
    assert!(has_reference_to(&slides[0], &"Kitchen".to_string()));
    assert!(has_reference_to(&slides[0], &"Living".to_string()));
    assert!(!has_reference_to(&slides[0], &"Attic".to_string()));
    assert!(!has_reference_to(&slides[2], &"Attic".to_string()));
    assert!(!has_reference_to(&slides[1], &"Back".to_string()));
}

#[test]
fn referrers_are_listed_in_the_order_of_the_slides() {
    let slides = house();
    assert_eq!(slides_with_references(&slides, &"Living".to_string()), ["Living", "Kitchen"]);
    assert_eq!(slides_with_references(&slides, &"Kitchen".to_string()), ["Living"]);
    assert!(slides_with_references(&slides, &"Attic".to_string()).is_empty());
    assert!(slides_with_references(&Vec::new(), &"Attic".to_string()).is_empty());
}

#[test]
fn a_rename_dialog_opens_on_the_present_name() {
    let slides = house();
    let dialog = RenameDialog::new_for(&slides[1]);
    assert_eq!(dialog.old_name, "Kitchen");
    assert_eq!(dialog.new_name, "Kitchen");
    let bg = Background::from_url("sky".to_string());
    let dialog = RenameDialog::new_for(&bg);
    assert_eq!(dialog.old_name, "sky");
}

#[test]
fn a_rename_to_nothing_is_refused() {
    let slides = house();
    let mut dialog = RenameDialog::new_for(&slides[1]);
    dialog.new_name = String::new();
    assert_eq!(dialog.verdict(&slides), RenameVerdict::EmptyName);
    assert_eq!(dialog.confirm(&slides), None);
}

#[test]
fn a_rename_to_a_name_in_use_is_refused() {
    let slides = house();
    let mut dialog = RenameDialog::new_for(&slides[1]);
    dialog.new_name = "Attic".to_string();
    assert_eq!(dialog.verdict(&slides), RenameVerdict::NameTaken);
    assert_eq!(dialog.confirm(&slides), None);
}

#[test]
fn a_rename_to_a_free_name_or_to_the_same_name_goes_ahead() {
    let slides = house();
    let mut dialog = RenameDialog::new_for(&slides[1]);
    assert_eq!(dialog.verdict(&slides), RenameVerdict::Allowed);
    assert_eq!(
        dialog.confirm(&slides),
        Some(CrudEvent::Renamed("Kitchen".to_string(), "Kitchen".to_string()))
    );
    dialog.new_name = "Galley".to_string();
    assert_eq!(dialog.verdict(&slides), RenameVerdict::Allowed);
    assert_eq!(
        dialog.confirm(&slides),
        Some(CrudEvent::Renamed("Kitchen".to_string(), "Galley".to_string()))
    );
}

#[test]
fn a_slide_with_links_to_it_cannot_be_deleted() {
    let slides = house();
    assert_eq!(
        DeleteSlideDialog("Living".to_string()).confirm(&slides),
        Err(vec!["Living".to_string(), "Kitchen".to_string()])
    );
    assert_eq!(
        DeleteSlideDialog("Kitchen".to_string()).confirm(&slides),
        Err(vec!["Living".to_string()])
    );
}

#[test]
fn a_slide_without_links_to_it_can_be_deleted() {
    let slides = house();
    assert_eq!(
        DeleteSlideDialog("Attic".to_string()).confirm(&slides),
        Ok(CrudEvent::Deleted("Attic".to_string()))
    );
    assert_eq!(
        DeleteSlideDialog("Nowhere".to_string()).confirm(&slides),
        Ok(CrudEvent::Deleted("Nowhere".to_string()))
    );
}

#[test]
fn the_prompt_makes_an_empty_slide() {
    let mut prompt = AddSlidePrompt::default();
    assert_eq!(prompt.name, "");
    assert_eq!(prompt.info, "");
    prompt.name = "Cellar".to_string();
    let event = prompt.create(&house());
    assert_eq!(event, Some(CrudEvent::Created(Slide::new("Cellar".to_string()))));
    assert_eq!(prompt.info, "");
    assert_eq!(prompt.name, "Cellar");
}

#[test]
fn the_prompt_says_why_it_makes_none() {
    let mut prompt = AddSlidePrompt::default();
    assert_eq!(prompt.create(&house()), None);
    assert_eq!(prompt.info, "Name can not be empty");
    prompt.name = "Attic".to_string();
    assert_eq!(prompt.create(&house()), None);
    assert_eq!(prompt.info, "There is another slide with that name");
    assert_eq!(prompt.name, "Attic");
}

#[test]
fn an_editor_outlives_its_slide_by_three_renderings() {
    assert_eq!(EDITOR_TTL, 3);
    let mut editor = SlideEditor::new_for("Living");
    assert_eq!(editor.target, "Living");
    assert_eq!(editor.ttl, 3);
    assert!(!editor.slide_missing());
    assert_eq!(editor.ttl, 2);
    assert!(!editor.slide_missing());
    assert!(!editor.slide_missing());
    assert_eq!(editor.ttl, 0);
    assert!(editor.slide_missing());
    assert_eq!(editor.ttl, 0);
    assert!(editor.slide_missing());
    assert_eq!(editor.target, "Living");
}

#[test]
fn editors_follow_renames() {
    let mut editors = vec![
        SlideEditor::new_for("Living"),
        SlideEditor::new_for("Kitchen"),
        SlideEditor::new_for("Living"),
    ];
    editors[2].ttl = 1;
    let events = vec![
        CrudEvent::Deleted("Kitchen".to_string()),
        CrudEvent::Renamed("Living".to_string(), "Den".to_string()),
        CrudEvent::Renamed("Den".to_string(), "Lounge".to_string()),
        CrudEvent::Renamed("Living".to_string(), "Hall".to_string()),
    ];
    SlideEditor::handle_renames(&mut editors, &events);
    assert_eq!(editors[0].target, "Lounge");
    assert_eq!(editors[1].target, "Kitchen");
    assert_eq!(editors[2].target, "Lounge");
    assert_eq!(editors[0].ttl, 3);
    assert_eq!(editors[2].ttl, 1);
}

#[test]
fn numbers_are_written_in_decimal() {
    for n in [0u32, 1, 9, 10, 11, 99, 100, 101, 9999, 10000, 4_294_967_295] {
        let mut text = "n=".to_string();
        append_decimal(&mut text, n);
        assert_eq!(text, format!("n={}", n));
    }
}

#[test]
fn made_up_names_are_the_stem_and_a_number() {
    assert_eq!(make_numbered_name(0), "slide0");
    assert_eq!(make_numbered_name(7), "slide7");
    assert_eq!(make_numbered_name(10), "slide10");
    assert_eq!(make_numbered_name(9999), "slide9999");
}

#[test]
fn the_first_free_made_up_name_is_taken() {
    let names = |list: &[&str]| list.iter().map(|n| n.to_string()).collect::<Vec<_>>();
    assert_eq!(fresh_slide_name(&names(&[])), Some("slide0".to_string()));
    assert_eq!(fresh_slide_name(&names(&["Living", "slide1"])), Some("slide0".to_string()));
    assert_eq!(fresh_slide_name(&names(&["slide0", "slide2"])), Some("slide1".to_string()));
    assert_eq!(
        fresh_slide_name(&names(&["slide1", "slide0", "slide00", "slide2"])),
        Some("slide3".to_string())
    );
    let ten: Vec<String> = (0..10).map(|n| format!("slide{}", n)).collect();
    assert_eq!(fresh_slide_name(&ten), Some("slide10".to_string()));
}

#[test]
fn when_every_made_up_name_is_taken_there_is_none() {
    assert_eq!(MADE_UP_NAMES, 10000);
    let mut all: Vec<String> = (0..10000).map(|n| format!("slide{}", n)).collect();
    assert_eq!(fresh_slide_name(&all), None);
    all.remove(9999);
    assert_eq!(fresh_slide_name(&all), Some("slide9999".to_string()));
}

#[test]
fn names_and_actions_are_looked_up_by_value() {
    let names = vec!["a".to_string(), "b".to_string()];
    assert!(contains_name(&names, &"b".to_string()));
    assert!(!contains_name(&names, &"c".to_string()));
    assert!(!contains_name(&Vec::new(), &"a".to_string()));
    let actions = vec![action("x", "A"), action("y", "B")];
    assert!(contains_action(&actions, &action("y", "B")));
    assert!(!contains_action(&actions, &action("y", "A")));
    assert!(!contains_action(&actions, &action("x", "B")));
}

#[test]
fn removed_actions_go_and_the_others_keep_their_order() {
    let mut actions = vec![
        action("a", "A"),
        action("b", "B"),
        action("a", "A"),
        action("c", "C"),
        action("a", "B"),
    ];
    remove_actions(&mut actions, &vec![action("a", "A"), action("z", "Z")]);
    assert_eq!(actions, vec![action("b", "B"), action("c", "C"), action("a", "B")]);
    remove_actions(&mut actions, &Vec::new());
    assert_eq!(actions.len(), 3);
    let all = actions.clone();
    remove_actions(&mut actions, &all);
    assert!(actions.is_empty());
}

#[test]
fn an_edit_is_reported_only_if_it_changed_something() {
    let saved = house().remove(0);
    let mut unsaved = saved.clone();
    assert_eq!(edit_outcome(&saved, &unsaved), None);
    unsaved.description = "New text.".to_string();
    assert_eq!(edit_outcome(&saved, &unsaved), Some(CrudEvent::Updated(unsaved.clone())));
    let mut unsaved = saved.clone();
    unsaved.actions.push(Action::default());
    assert_eq!(edit_outcome(&saved, &unsaved), Some(CrudEvent::Updated(unsaved.clone())));
}

#[test]
fn what_the_dialogs_send_keeps_the_names_unique() {
    let mut slides = house();
    let mut prompt = AddSlidePrompt::default();
    prompt.name = "Cellar".to_string();
    let created = prompt.create(&slides).unwrap();
    event_handler(&vec![created], &mut slides);
    assert_eq!(prompt.create(&slides), None);

    let mut dialog = RenameDialog::new_for(&slides[3]);
    dialog.new_name = "Attic".to_string();
    assert_eq!(dialog.confirm(&slides), None);
    dialog.new_name = "Vault".to_string();
    let renamed = dialog.confirm(&slides).unwrap();
    event_handler(&vec![renamed], &mut slides);

    let deleted = DeleteSlideDialog("Attic".to_string()).confirm(&slides).unwrap();
    event_handler(&vec![deleted], &mut slides);

    let names: Vec<String> = slides.iter().map(|s| s.name.clone()).collect();
    assert_eq!(names, ["Living", "Kitchen", "Vault"]);
    for (i, a) in names.iter().enumerate() {
        for b in names.iter().skip(i + 1) {
            assert_ne!(a, b);
        }
    }
    assert_eq!(get_slide_entity_by_name("Vault", &slides), Some(2));
}
