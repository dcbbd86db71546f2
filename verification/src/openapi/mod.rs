pub mod api_spec;
pub mod document;
pub mod endpoint;
pub mod method;
pub mod param;
pub mod reference;

pub use api_spec::ApiSpec;
pub use endpoint::EndPoints;
pub use method::Method;
pub use param::Param;
