//! Data model for the remote language-model API: roles, content blocks,
//! tool-input schemas, requests and responses, and the error taxonomy.

pub mod api;
pub mod content;
pub mod error;
pub mod retry;
pub mod schema;
pub mod tools;
pub mod util;

pub use api::APIError;
pub use api::Client;
pub use api::Interaction;
pub use api::ListModelsResponse;
pub use api::Model;
pub use api::ModelDetails;
pub use api::Response;
pub use api::Role;
pub use api::Tool;
pub use api::Transport;
pub use api::Usage;
pub use content::Citation;
pub use content::Content;
pub use content::ImageSource;
pub use error::Error;
pub use schema::Schema;
