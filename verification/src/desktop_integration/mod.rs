pub mod desktop_entry;
pub mod editor;
pub mod integrator;
pub mod manager;
pub mod thumbnailer;
