//! The configuration: the services to monitor.

use vstd::prelude::*;
use crate::models::service::Service;

verus! {

/// The list of configured services, as it is loaded once at start.
#[derive(Clone, Debug)]
pub struct Config {
    pub services: Vec<Service>,
}

} // verus!
