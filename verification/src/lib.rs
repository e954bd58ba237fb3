//! Request-handling rules of the SchoolCBB gateway and the pure helpers of its web client.
pub mod text;
pub mod cookie;
pub mod headers;
pub mod json;
pub mod graphql;
pub mod gateway;
pub mod client;
pub mod roles;
pub mod pages;
pub mod plans;
pub mod csv;
pub mod custom_fields;
pub mod kanban;
pub mod attendance;
pub mod forms;
pub mod academic_years;
pub mod complaints;
pub mod reports;
pub mod curriculum;
pub mod leave;
pub mod portal;
pub mod employees;
pub mod dashboard;
pub mod finance;
