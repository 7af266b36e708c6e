//! System services. macOS offers none to the gatherer: the list is empty
//! and every action on a service is refused.
use vstd::prelude::*;

verus! {

/// Why a request about services fails.
#[derive(Clone, Copy, Debug, PartialEq, Eq, Structural)]
pub enum MacosServicesError {
    NotSupported,
}

impl MacosServicesError {
    /// The message of the error.
    pub fn message(&self) -> (r: String)
        ensures
            r@ == "Services not supported on macOS"@,
    {
        String::from_str("Services not supported on macOS")
    }
}

/// A system service.
#[derive(Clone, Debug, PartialEq, Eq)]
pub struct MacosService {
    pub name: String,
    pub description: String,
    pub enabled: bool,
    pub running: bool,
    pub failed: bool,
    /// The process of the service; never `Some(0)`.
    pub pid: Option<u32>,
    pub user: Option<String>,
    pub group: Option<String>,
}

impl Default for MacosService {
    fn default() -> (r: Self)
        ensures
            r.name@.len() == 0,
            r.description@.len() == 0,
            !r.enabled,
            !r.running,
            !r.failed,
            r.pid is None,
            r.user is None,
            r.group is None,
    {
        MacosService {
            name: String::new(),
            description: String::new(),
            enabled: false,
            running: false,
            failed: false,
            pid: None,
            user: None,
            group: None,
        }
    }
}

/// Carries out actions on services; each is refused.
pub struct MacosServiceController;

impl MacosServiceController {
    pub fn enable_service(&self, name: &str) -> (r: Result<(), MacosServicesError>)
        ensures
            r == Err::<(), MacosServicesError>(MacosServicesError::NotSupported),
    {
        Err(MacosServicesError::NotSupported)
    }

    pub fn disable_service(&self, name: &str) -> (r: Result<(), MacosServicesError>)
        ensures
            r == Err::<(), MacosServicesError>(MacosServicesError::NotSupported),
    {
        Err(MacosServicesError::NotSupported)
    }

    pub fn start_service(&self, name: &str) -> (r: Result<(), MacosServicesError>)
        ensures
            r == Err::<(), MacosServicesError>(MacosServicesError::NotSupported),
    {
        Err(MacosServicesError::NotSupported)
    }

    pub fn stop_service(&self, name: &str) -> (r: Result<(), MacosServicesError>)
        ensures
            r == Err::<(), MacosServicesError>(MacosServicesError::NotSupported),
    {
        Err(MacosServicesError::NotSupported)
    }

    pub fn restart_service(&self, name: &str) -> (r: Result<(), MacosServicesError>)
        ensures
            r == Err::<(), MacosServicesError>(MacosServicesError::NotSupported),
    {
        Err(MacosServicesError::NotSupported)
    }
}

/// The services of the system.
pub struct MacosServices;

impl MacosServices {
    pub fn new() -> (r: MacosServices) {
        MacosServices
    }

    /// Refreshing always succeeds.
    pub fn refresh_cache(&mut self) -> (r: Result<(), MacosServicesError>)
        ensures
            r is Ok,
    {
        Ok(())
    }

    /// There are no services.
    pub fn services(&self) -> (r: Result<Vec<MacosService>, MacosServicesError>)
        ensures
            r matches Ok(v) && v@.len() == 0,
    {
        Ok(Vec::new())
    }

    /// A controller is always available.
    pub fn controller(&self) -> (r: Result<MacosServiceController, MacosServicesError>)
        ensures
            r is Ok,
    {
        Ok(MacosServiceController)
    }

    /// The log of any service is empty.
    pub fn service_logs(&self, name: &str, pid: Option<u32>) -> (r: Result<String, MacosServicesError>)
        ensures
            r matches Ok(s) && s@.len() == 0,
    {
        Ok(String::new())
    }
}

} // verus!
