//! UIKit classes kept here.

pub mod ui_action_sheet;
pub mod ui_navigation_bar;
