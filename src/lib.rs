//! Markov-chain Monte-Carlo building blocks: lenses into models, stepping
//! algorithms and their composition into groups, adaptation bookkeeping,
//! and the driver that runs one chain through warm-up and sampling.
pub mod adapt_state;
pub mod adaptive;
pub mod adapt_window;
pub mod diagnostics;
pub mod discrete;
pub mod group;
pub mod lens;
pub mod mock;
pub mod parameter;
pub mod result;
pub mod runner;
pub mod stepping;

pub use adapt_state::{AdaptState, AdaptationMode, AdaptationStatus};
pub use adapt_window::AdaptWindow;
pub use adaptive::{Adaptive, SteppingKernel};
pub use group::{Group, GroupBuilder};
pub use lens::Lens;
pub use mock::{Mock, MockBuilder, MockStepper};
pub use parameter::{Dependent, Independent, Parameter, PriorSource};
pub use result::RunnerError;
pub use runner::{InitializationMode, Runner, draw_from_stepper};
pub use stepping::{StepperBuilder, SteppingAlg};
