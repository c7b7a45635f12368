//! The radio of the platform, as a device hands it out.

use crate::ble::{DummyBLEBroadcaster, DummyBLEScanner};
use vstd::prelude::*;

verus! {

/// A device without a radio: its scanner and its broadcaster do nothing.
pub struct DummyApiServiceProvider;

impl DummyApiServiceProvider {
    pub fn ble_scanner(&self) -> DummyBLEScanner {
        DummyBLEScanner
    }

    pub fn ble_broadcaster(&self) -> DummyBLEBroadcaster {
        DummyBLEBroadcaster
    }
}

/// A device without a radio.
pub fn create_dummy_provider() -> DummyApiServiceProvider {
    DummyApiServiceProvider
}

} // verus!
