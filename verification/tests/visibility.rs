use novakeys::input_detection::{InputContext, TextInputHandler};
use novakeys::visibility::{KeyboardVisibilityManager, VisibilityController};

#[derive(Default)]
struct Recorder(Vec<InputContext>);

impl VisibilityController for Recorder {
    fn context_changed(&mut self, context: InputContext) {
        self.0.push(context);
    }
}

#[test]
fn a_controller_learns_the_current_context_and_every_change() {
    let mut manager: KeyboardVisibilityManager<Recorder> = KeyboardVisibilityManager::new();
    assert!(manager.controller().is_none());
    let first = InputContext { generation: 1, active: true, content_hint: 0, content_purpose: 0 };
    manager.on_context_changed(first);
    assert_eq!(manager.context_now(), first);
    manager.set_controller(Recorder::default());
    assert_eq!(manager.controller().unwrap().0, vec![first]);
    let second = InputContext { generation: 2, active: false, ..first };
    manager.on_context_changed(second);
    assert_eq!(manager.context_now(), second);
    assert_eq!(manager.controller().unwrap().0, vec![first, second]);
}
