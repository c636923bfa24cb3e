pub mod text;
pub mod domain;
pub mod app;
pub mod rank;
pub mod theme;
pub mod command;
pub mod filter;
pub mod config;
pub mod rows;
pub mod derive;
pub mod cut;
pub mod hero;
pub mod rect;
pub mod layout;
pub mod net;
pub mod idmap;
pub mod merge;
pub mod alerts;
pub mod board;
pub mod chrome;
pub mod demo;
pub mod gallery;
pub mod nav;
pub mod edit;
pub mod boards;
pub mod tv;
pub mod footer;
pub mod capture;
pub mod session;
pub mod linescore;
pub mod frame;
pub mod keys;
pub mod order;
