use vstd::prelude::*;

pub mod usb_cdc_tcp;
pub mod ecu_io;
pub mod embedded_cdc;
pub mod embedded_ecu_io;

use usb_cdc_tcp::UsbCdcTcpConfig;
use ecu_io::EcuIoConfig;

verus! {

/// External devices of a board configuration.
#[derive(Clone, Debug)]
pub struct ExtDevicesConfig {
    pub usb_cdc_tcp: Option<Vec<UsbCdcTcpConfig>>,
    pub ecu_io: Option<Vec<EcuIoConfig>>,
}

} // verus!
