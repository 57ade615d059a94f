use vstd::prelude::*;

pub mod annotate;
pub mod app;
pub mod command_log;
pub mod decimal;
pub mod diff;
pub mod diff_view;
pub mod forge;
pub mod git;
pub mod highlight;
pub mod highlight_cache;
pub mod motion;
pub mod parse;
pub mod path_map;
pub mod pr_checkout;
pub mod restore;
pub mod review;
pub mod review_banner;
pub mod review_branch;
pub mod review_build;
pub mod review_launcher;
pub mod review_launcher_modal;
pub mod review_ops;
pub mod review_start;
pub mod rows;
pub mod stage_ops;
pub mod staging;
pub mod switcher;
pub mod syntax;
pub mod targeting;
pub mod sbs;
pub mod search;
pub mod sidebar;
pub mod stat_display;
pub mod text;
pub mod textwrap;
pub mod theme;
pub mod time_format;
pub mod welcome;

verus! {

} // verus!
