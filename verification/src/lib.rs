pub mod text;
pub mod num;
pub mod coeff;
pub mod lev;
pub mod materials;
pub mod order;
pub mod calc;
pub mod headers;
pub mod table;
pub mod csv_processor;
pub mod material_parser;
pub mod registry;
pub mod config;
pub mod state;
pub mod formatter;
pub mod form;
pub mod telegram;
pub mod xlsx_processor;
pub mod cli_materials;
pub mod cli_calc;
pub mod cli_table;
pub mod paths;
pub mod cli_args;
pub mod cli_session;
pub mod order_sheet;
pub mod file_handler;
pub mod bot;
