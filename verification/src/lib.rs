//! Valhalla's verified core: the scene tree that React mutation ops are
//! reduced onto, the Tailwind class subset, the `style` prop reader, bundle
//! and asset resolution, and the small decisions the renderer makes.
//!
//! Everything that touches a window, a JavaScript engine, the network or the
//! file system lives in the application crate next to this library; it hands
//! this library plain values and acts on the plain values that come back.
pub mod text;
pub mod numbers;
pub mod props;
pub mod scene;
pub mod tailwind;
pub mod style;
pub mod loader;
pub mod assets;
pub mod widgets;
pub mod headless;
pub mod events;
