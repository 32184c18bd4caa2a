//! The web API's types, as the features module names them.
pub use crate::web::routes::activity::ActivityTypeProxy;
pub use crate::web::ApiResponse;
