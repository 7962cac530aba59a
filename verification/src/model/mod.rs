//! Data exchanged with the server: REST client requests and responses, and
//! shared file descriptions.
pub mod restclient;
pub mod share_file;
