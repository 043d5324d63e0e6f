pub mod arg_parser;
