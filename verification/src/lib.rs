//! Hand-made versions of common standard-library containers and smart
//! pointers, each with a verified contract.
pub mod vector;
pub mod string;
pub mod linked_list;
pub mod my_box;
pub mod rc;
pub mod arc;
pub mod pin;
pub mod cell;
pub mod once;
pub mod refcell;
pub mod cow;
