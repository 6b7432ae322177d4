//! What holds of the operations as a whole, said over what goes into them and what comes out.

pub mod parts;
pub mod turns;
pub mod rounds;
pub mod tools;
pub mod waits;
pub mod restoring;
pub mod compacting;
pub mod conversations;
pub mod sessions;
pub mod routing;
pub mod texts;
pub mod prompting;
pub mod commanding;
pub mod planning;
pub mod reporting;
pub mod answering;
pub mod children;
pub mod writing;
