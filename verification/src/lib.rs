//! Verified core of a sandbox that builds AUR packages while watching the
//! network traffic of the build container.

pub mod aur;
pub mod domains;
pub mod packet;
pub mod pkgbuild;
pub mod sniffer;
pub mod supervisor;
