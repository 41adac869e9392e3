pub mod column_sizer;
pub mod table_headers;
pub mod table_list_view;
