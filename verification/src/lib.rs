pub mod date;
pub mod encoding;
pub mod error;
pub mod file_worker;
pub mod decimal;
pub mod due;
pub mod defaults;
pub mod calendar;
pub mod category_list;
pub mod conf;
pub mod config;
pub mod holder;
pub mod ical;
pub mod input;
pub mod keys;
pub mod layout;
pub mod layout_parser;
pub mod lines;
pub mod options;
pub mod parsers;
pub mod search;
pub mod style;
pub mod task;
pub mod task_list;
pub mod text;
pub mod todo;
pub mod ui_event;
pub mod widget_list;
pub mod widget_state;
pub mod vtodo;
pub mod vtodo_laws;
pub mod widget_type;
