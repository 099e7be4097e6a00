pub mod webapi;
