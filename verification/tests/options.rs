use ratzilla_dom::options::{CursorShape, DomBackendOptions};

#[test]
fn grid_id_defaults_to_grid() {
    let options = DomBackendOptions::default();
    assert_eq!(options.grid_id(), "grid");
    assert_eq!(options.chosen_id(), None);
    assert_eq!(*options.cursor_shape(), CursorShape::SteadyBlock);
}

#[test]
fn chosen_grid_id_gets_the_suffix() {
    let options =
        DomBackendOptions::new(Some("app".to_string()), CursorShape::SteadyUnderScore);
    assert_eq!(options.grid_id(), "app_ratzilla_grid");
    assert_eq!(options.chosen_id(), Some("app"));
    assert_eq!(*options.cursor_shape(), CursorShape::SteadyUnderScore);
}

#[test]
fn empty_grid_id_is_a_choice_too() {
    let options = DomBackendOptions::new(Some(String::new()), CursorShape::SteadyBlock);
    assert_eq!(options.grid_id(), "_ratzilla_grid");
}

#[test]
fn choosing_grid_still_differs_from_the_default() {
    let chosen = DomBackendOptions::new(Some("grid".to_string()), CursorShape::SteadyBlock);
    assert_ne!(chosen.grid_id(), DomBackendOptions::default().grid_id());
    let other = DomBackendOptions::new(Some("other".to_string()), CursorShape::SteadyBlock);
    assert_ne!(chosen.grid_id(), other.grid_id());
}

#[test]
fn cursor_shape_can_be_replaced() {
    let mut options = DomBackendOptions::new(Some("app".to_string()), CursorShape::SteadyBlock);
    options.set_cursor_shape(CursorShape::SteadyUnderScore);
    assert_eq!(*options.cursor_shape(), CursorShape::SteadyUnderScore);
    assert_eq!(options.grid_id(), "app_ratzilla_grid");
}
