pub mod rootless;
