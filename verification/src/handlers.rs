pub mod appimage;
pub mod deb;
pub mod flatpak;
