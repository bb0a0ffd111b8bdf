use vstd::prelude::*;

pub mod action;
pub mod apps;
pub mod backend;
pub mod bar;
pub mod bind;
pub mod chrome;
pub mod clipboard;
pub mod compositor;
pub mod config;
pub mod desktop;
pub mod geometry;
pub mod highlight;
pub mod hover;
pub mod input;
pub mod keymap;
pub mod launcher;
pub mod math;
pub mod minibuffer;
pub mod overlay;
pub mod pane;
pub mod persist;
pub mod provider;
pub mod render;
pub mod repeat;
pub mod screencopy;
pub mod text;

verus! {
} // verus!
