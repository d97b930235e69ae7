//! Bridging committed input contexts to the keyboard window.
use crate::input_detection::{InputContext, TextInputHandler};
use vstd::prelude::*;

verus! {

/// Shows or hides the keyboard for committed contexts.
///
/// A controller that `records` keeps, in `told`, every context it was told;
/// the defaults keep no record, so a controller that does not define them
/// promises nothing.
pub trait VisibilityController: Send {
    /// Whether this controller keeps the record `told`.
    closed spec fn records(&self) -> bool {
        false
    }

    /// The contexts this controller was told, oldest first.
    closed spec fn told(&self) -> Seq<InputContext> {
        Seq::empty()
    }

    /// Shows or hides the keyboard for `context`.
    fn context_changed(&mut self, context: InputContext)
        ensures
            final(self).records() == old(self).records(),
            old(self).records() ==> final(self).told() == old(self).told().push(context),
    ;
}

/// Accepts the controller that receives context changes.
pub trait VisibilityManager: Send + Sync {
    fn set_controller(&self, controller: Box<dyn VisibilityController>);
}

/// Remembers the committed context and passes every change on to the
/// controller, which learns the current context as soon as it is set.
pub struct KeyboardVisibilityManager<C: VisibilityController> {
    context: InputContext,
    controller: Option<C>,
}

impl<C: VisibilityController> KeyboardVisibilityManager<C> {
    /// The last committed context.
    pub closed spec fn context(&self) -> InputContext {
        self.context
    }

    /// Whether a controller has been set.
    pub closed spec fn has_controller(&self) -> bool {
        self.controller is Some
    }

    /// The controller, if one has been set.
    pub closed spec fn current_controller(&self) -> Option<C> {
        self.controller
    }

    /// `after` is `before` having been told `context`.
    pub open spec fn was_told(before: C, after: C, context: InputContext) -> bool {
        &&& after.records() == before.records()
        &&& before.records() ==> after.told() == before.told().push(context)
    }

    /// No context committed yet and no controller.
    pub fn new() -> (m: Self)
        ensures
            m.context() == (InputContext {
                generation: 0,
                active: false,
                content_hint: 0,
                content_purpose: 0,
            }),
            !m.has_controller(),
            m.current_controller() is None,
    {
        KeyboardVisibilityManager { context: InputContext::default(), controller: None }
    }

    /// Sets the controller, telling it the current context first.
    pub fn set_controller(&mut self, controller: C)
        ensures
            final(self).has_controller(),
            final(self).context() == old(self).context(),
            final(self).current_controller() matches Some(c) && Self::was_told(
                controller,
                c,
                old(self).context(),
            ),
    {
        let mut controller = controller;
        controller.context_changed(self.context);
        self.controller = Some(controller);
    }

    /// The controller, if one has been set.
    pub fn controller(&self) -> (r: Option<&C>)
        ensures
            r is Some == self.has_controller(),
            r matches Some(c) ==> self.current_controller() == Some(*c),
    {
        match &self.controller {
            Some(c) => Some(c),
            None => None,
        }
    }

    /// The last committed context.
    pub fn context_now(&self) -> (c: InputContext)
        ensures
            c == self.context(),
    {
        self.context
    }
}

impl<C: VisibilityController> TextInputHandler for KeyboardVisibilityManager<C> {
    /// Remembers the context and passes it on to the controller, if any.
    fn on_context_changed(&mut self, context: InputContext)
        ensures
            final(self).context() == context,
            final(self).has_controller() == old(self).has_controller(),
            old(self).current_controller() matches Some(c) ==> (final(self).current_controller() matches Some(f)
                && Self::was_told(c, f, context)),
    {
        self.context = context;
        match self.controller.take() {
            Some(controller) => {
                let mut controller = controller;
                controller.context_changed(context);
                self.controller = Some(controller);
            },
            None => {},
        }
    }
}

} // verus!
