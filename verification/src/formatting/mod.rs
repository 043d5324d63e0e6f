pub mod arena;
pub mod balance;
pub mod clock;
pub mod conditions;
pub mod counter_cell;
pub mod fnv_map;
pub mod line_breaks;
pub mod print_items;
pub mod save_point;
pub mod writer;
pub mod printer_state;
pub mod printer;
pub mod write_items;
pub mod parser_helpers;
pub mod text;
