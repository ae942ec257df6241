//! Logic of the Windows-only operations: elevation command lines, firewall
//! rule validation and the UWP loopback exemption list.
pub mod elevation;
pub mod firewall;
pub mod uwp_loopback;


