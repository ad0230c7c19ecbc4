use vstd::prelude::*;

pub mod app;
pub mod app_selector;
pub mod cli;
pub mod collections;
pub mod data;
pub mod doctor;
pub mod git;
pub mod gitignore;
pub mod linker;
pub mod logo;
pub mod ops;
pub mod os_detect;
pub mod paths;
pub mod scanner;
pub mod sync;
pub mod text;
pub mod tui;

verus! {

} // verus!
