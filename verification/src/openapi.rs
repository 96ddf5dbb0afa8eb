//! The typed document model: one API description as an owned tree of plain
//! values. Every ordered mapping is a vector of key/value entries in
//! declaration order; a well-formed document never repeats a key within one
//! mapping. The model is read-only input to the diff engine.

pub mod components;
pub mod document;
pub mod extensions;
pub mod info;
pub mod media_type;
pub mod operation;
pub mod parameter;
pub mod paths;
pub mod reference;
pub mod request_body;
pub mod responses;
pub mod schema;
pub mod security;
pub mod server;

pub use components::Components;
pub use document::OpenAPI;
pub use extensions::Extensions;
pub use info::Contact;
pub use info::Info;
pub use info::License;
pub use media_type::MediaType;
pub use operation::Operation;
pub use parameter::Parameter;
pub use parameter::ParameterData;
pub use parameter::ParameterSchemaOrContent;
pub use paths::PathItem;
pub use paths::Paths;
pub use reference::ReferenceOr;
pub use request_body::RequestBody;
pub use responses::Response;
pub use responses::Responses;
pub use schema::AdditionalProperties;
pub use schema::Schema;
pub use security::APIKeyLocation;
pub use security::OAuth2Flow;
pub use security::OAuth2Flows;
pub use security::SecurityScheme;
pub use server::Server;
