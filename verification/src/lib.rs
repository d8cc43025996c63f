use vstd::prelude::*;

pub mod text;
pub mod versions;
pub mod patterns;
pub mod models;
pub mod cr_parser;
pub mod sections;
pub mod rounds_table;
pub mod mtr_parser;
pub mod penalty_table;
pub mod ipg_parser;
pub mod jar_parser;
pub mod search;
pub mod card_search;
pub mod riftbound_search;
pub mod rule_search;
pub mod updates;
pub mod progress;
pub mod riftbound;
pub mod timer;
pub mod migrations;
pub mod scryfall;
pub mod gallery;
pub mod judge_api;
pub mod text_order;
pub mod card_compiler;
pub mod card_sort;
pub mod pdf_rules;

verus! {

} // verus!
