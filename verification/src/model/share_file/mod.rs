//! Descriptions of shared files and of the servers that keep them.
pub mod share_file_info_dto;
pub mod share_file_server;
