pub mod processor;
