use raytracer::path::{path_step, PathEvent, PathStep};

#[test]
fn exhausted_budget_is_black_for_every_event() {
    // With no transport budget left the path contributes no light, whatever
    // the scene reported — even a miss against an empty scene.
    assert_eq!(path_step(0, PathEvent::Miss), PathStep::EmitBlack);
    assert_eq!(path_step(0, PathEvent::Absorbed), PathStep::EmitBlack);
    assert_eq!(path_step(0, PathEvent::Scattered), PathStep::EmitBlack);
}

#[test]
fn miss_ends_on_the_sky() {
    assert_eq!(path_step(5, PathEvent::Miss), PathStep::EmitSky);
}

#[test]
fn absorption_ends_black() {
    assert_eq!(path_step(5, PathEvent::Absorbed), PathStep::EmitBlack);
}

#[test]
fn scattering_spends_one_bounce() {
    assert_eq!(
        path_step(5, PathEvent::Scattered),
        PathStep::Bounce { remaining: 4 }
    );
    assert_eq!(
        path_step(1, PathEvent::Scattered),
        PathStep::Bounce { remaining: 0 }
    );
}
