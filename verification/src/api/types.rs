//! Request/response types of the injection and observatory API.
use vstd::prelude::*;

verus! {

/// GET /health response
#[derive(Debug)]
pub struct HealthResponse {
    pub status: String,
    pub version: String,
    pub uptime_seconds: u64,
    pub thoughts_total: u64,
    pub injection_count: u64,
}

/// Validated key info extracted from auth
#[derive(Debug)]
pub struct AuthenticatedKey {
    pub key_id: String,
    pub holder: String,
}

impl Clone for AuthenticatedKey {
    fn clone(&self) -> (r: Self)
        ensures
            r == *self,
    {
        AuthenticatedKey { key_id: self.key_id.clone(), holder: self.holder.clone() }
    }
}

/// Individual memory slot
#[derive(Debug, Clone, Copy, PartialEq, Eq, Structural)]
pub struct MemorySlot {
    pub id: u8,
    pub active: bool,
}

/// TMI 9-slot memory windows
#[derive(Debug)]
pub struct MemoryWindowsMetrics {
    /// 9 slot states
    pub slots: Vec<MemorySlot>,
    /// Active slot count
    pub active_count: usize,
    /// Total conscious memories
    pub conscious_count: u64,
    /// Total unconscious memories
    pub unconscious_count: u64,
}

/// Philosophy banner
#[derive(Debug)]
pub struct PhilosophyMetrics {
    /// Current quote
    pub quote: String,
    /// Quote index (0-7)
    pub quote_index: usize,
}

} // verus!
