pub mod bitboard;
pub mod components;
pub mod direction;
pub mod score;
pub mod text;
pub mod move_buffer;
pub mod move_info;
pub mod board_state;
pub mod move_tables;
pub mod zobrist;
pub mod board;
pub mod board_spec;
pub mod attack_data;
pub mod move_gen;
pub mod fen;
pub mod notation;
pub mod perft;
pub mod pawn_tables;
pub mod params;
pub mod evaluation;
pub mod search;
pub mod tt;
pub mod see;
pub mod move_ordering;
pub mod move_picker;
pub mod alpha_beta;
pub mod uci_parser;
pub mod moves;
pub mod picture;
pub mod accumulator;
pub mod symmetry;
