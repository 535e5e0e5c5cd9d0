pub mod automata;
pub mod kernel;
pub mod rule;

pub use automata::Automata;
pub use automata::AutomataError;

pub use kernel::Kernel;
pub use kernel::Kernel1D;
pub use kernel::Kernel2D;
pub use rule::Rule;
pub use rule::TableRule;
