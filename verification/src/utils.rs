pub mod choices;
pub mod token_counting;
pub mod utils;

pub use choices::create_choices;
pub use token_counting::{ChatMessage, EncodingError, EncodingFamily, TokenCounter};
pub use utils::{generate_uuid, get_current_timestamp};
