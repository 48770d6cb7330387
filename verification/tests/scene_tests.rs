use crossfire::scene::SceneAction;

#[test]
fn scene_actions_compare_by_variant() {
    assert_eq!(SceneAction::NONE, SceneAction::NONE);
    assert_ne!(SceneAction::EXIT, SceneAction::BACK);
    let a = SceneAction::GAME;
    let b = a;
    assert_eq!(a, b);
}
