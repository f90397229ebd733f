pub mod json;
pub mod text;
pub mod settings;
pub mod scene;
pub mod vox;
pub mod tga;
pub mod obj;
pub mod random;
pub mod stopwatch;
pub mod schedule;
