use vstd::prelude::*;

verus! {

/// The application that committed commands are applied to, in log order.
pub trait StateMachineStrategy {
    /// Applies one committed command.
    fn apply(&mut self, raw: &str);

    /// A short human-readable description of the current state.
    fn describe(&self) -> (r: String)
        default_ensures
            r@ == "<state-machine>"@,
    {
        "<state-machine>".to_owned()
    }
}

} // verus!
