pub mod diff_view;
pub mod file_list;
pub mod header;
pub mod range_list;
pub mod status_bar;
pub mod text_input;
