pub mod generators;
