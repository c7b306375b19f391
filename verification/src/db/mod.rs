//! The three-tier context store on PostgreSQL: the statements that are sent to it, and
//! what its answers mean.

pub mod graph;
pub mod migrations;
pub mod pool;
pub mod read_only;
pub mod relational;
pub mod statement;
pub mod vector;
