pub mod defaults;
pub mod endpoint;
pub mod laws;
pub mod matcher;
pub mod method;
pub mod model;
pub mod params;
pub mod path;
pub mod router;
