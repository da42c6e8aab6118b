pub mod astprinter;
pub mod environment;
pub mod error;
pub mod expression;
pub mod function;
pub mod host;
pub mod interpreter;
pub mod linkedlist;
pub mod linkedlist_3;
pub mod lox;
pub mod object;
pub mod parser;
pub mod scanner;
pub mod statement;
pub mod token;
