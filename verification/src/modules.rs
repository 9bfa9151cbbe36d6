pub mod email;
pub mod ldap;
pub mod user;
