pub mod tabs;
