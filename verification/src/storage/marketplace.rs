//! Shaping of storage-marketplace discovery queries.

use vstd::prelude::*;

verus! {

pub const DEFAULT_LIMIT: usize = 25;
pub const MAX_LIMIT: usize = 200;

/// A provider discovery query as the marketplace takes it.
#[derive(Debug)]
pub struct DiscoveryRequest {
    pub object_size: u64,
    pub shares: u16,
    pub region: Option<String>,
    pub max_price_per_block: Option<u64>,
    pub min_success_rate_ppm: Option<u64>,
    pub limit: usize,
}

/// Parameters of a gateway search for storage providers.
#[derive(Debug)]
pub struct SearchOptions {
    pub object_size: u64,
    pub shares: u16,
    pub region: Option<String>,
    pub limit: usize,
    pub max_price_per_block: Option<u64>,
    pub min_success_rate_ppm: Option<u64>,
}

impl Default for SearchOptions {
    /// One share of an empty object, 25 results, at least 85% success.
    fn default() -> (o: Self)
        ensures
            o.object_size == 0,
            o.shares == 1,
            o.region is None,
            o.limit == DEFAULT_LIMIT,
            o.max_price_per_block is None,
            o.min_success_rate_ppm == Some(850_000u64),
    {
        SearchOptions {
            object_size: 0,
            shares: 1,
            region: None,
            limit: DEFAULT_LIMIT,
            max_price_per_block: None,
            min_success_rate_ppm: Some(850_000),
        }
    }
}

/// A limit brought into `1..=200`.
pub open spec fn clamped(limit: usize) -> usize {
    if limit < 1 {
        1
    } else if limit > MAX_LIMIT {
        MAX_LIMIT
    } else {
        limit
    }
}

impl SearchOptions {
    /// The marketplace query for these options, with the limit clamped.
    pub fn discovery_request(&self) -> (r: DiscoveryRequest)
        ensures
            r.object_size == self.object_size,
            r.shares == self.shares,
            match self.region {
                Some(s) => r.region matches Some(t) && t@ == s@,
                None => r.region is None,
            },
            r.max_price_per_block == self.max_price_per_block,
            r.min_success_rate_ppm == self.min_success_rate_ppm,
            r.limit == clamped(self.limit),
    {
        let region = match &self.region {
            Some(s) => Some(s.clone()),
            None => None,
        };
        DiscoveryRequest {
            object_size: self.object_size,
            shares: self.shares,
            region,
            max_price_per_block: self.max_price_per_block,
            min_success_rate_ppm: self.min_success_rate_ppm,
            limit: Self::clamp_limit(self.limit),
        }
    }

    /// Clamps a limit so that a query never floods the overlay.
    pub fn clamp_limit(limit: usize) -> (l: usize)
        ensures
            l == clamped(limit),
            1 <= l <= MAX_LIMIT,
    {
        if limit < 1 {
            1
        } else if limit > MAX_LIMIT {
            MAX_LIMIT
        } else {
            limit
        }
    }
}

} // verus!
