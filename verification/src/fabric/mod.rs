pub mod hbm_interface;
pub mod l2_overlay;
pub mod region_overlay;

pub use hbm_interface::HbmInterface;
pub use l2_overlay::L2Overlay;
pub use region_overlay::{RegionOverlay, RegionOverlayTable};
