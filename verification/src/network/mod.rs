pub mod tauri;
