//! Counters that a renderer bumps while tracing rays, together with the
//! wall-clock time since the counters were created.

use vstd::prelude::*;

verus! {

/// std::time::Instant, declared opaquely so the timer can live in a
/// verified struct.
#[verifier::external_type_specification]
#[verifier::external_body]
pub struct ExInstant(std::time::Instant);

/// Relies on std::time::Instant::now: a point in time; nothing is assumed
/// of its value.
#[verifier::external_body]
fn instant_now() -> std::time::Instant {
    std::time::Instant::now()
}

/// Relies on std::time::Instant::elapsed: the time since the instant;
/// nothing is assumed of its value.
#[verifier::external_body]
fn instant_elapsed(timer: std::time::Instant) -> std::time::Duration {
    timer.elapsed()
}

#[derive(Clone, Copy)]
pub struct PerformanceStats {
    pub ray_checks: u32,
    pub ray_counter: u32,
    pub aabb_intersections: u32,
    pub object_intersections: u32,
    pub timer: std::time::Instant,
}

impl PerformanceStats {
    pub fn new() -> (r: PerformanceStats)
        ensures
            r.ray_checks == 0,
            r.ray_counter == 0,
            r.aabb_intersections == 0,
            r.object_intersections == 0,
    {
        PerformanceStats {
            ray_checks: 0,
            ray_counter: 0,
            aabb_intersections: 0,
            object_intersections: 0,
            timer: instant_now(),
        }
    }

    pub fn increment_checks(&mut self)
        requires
            old(self).ray_checks < u32::MAX,
        ensures
            final(self).ray_checks == old(self).ray_checks + 1,
            final(self).ray_counter == old(self).ray_counter,
            final(self).aabb_intersections == old(self).aabb_intersections,
            final(self).object_intersections == old(self).object_intersections,
            final(self).timer == old(self).timer,
    {
        self.ray_checks += 1;
    }

    pub fn increment_rays(&mut self)
        requires
            old(self).ray_counter < u32::MAX,
        ensures
            final(self).ray_counter == old(self).ray_counter + 1,
            final(self).ray_checks == old(self).ray_checks,
            final(self).aabb_intersections == old(self).aabb_intersections,
            final(self).object_intersections == old(self).object_intersections,
            final(self).timer == old(self).timer,
    {
        self.ray_counter += 1;
    }

    pub fn increment_obj_inters(&mut self)
        requires
            old(self).object_intersections < u32::MAX,
        ensures
            final(self).object_intersections == old(self).object_intersections + 1,
            final(self).ray_checks == old(self).ray_checks,
            final(self).ray_counter == old(self).ray_counter,
            final(self).aabb_intersections == old(self).aabb_intersections,
            final(self).timer == old(self).timer,
    {
        self.object_intersections += 1;
    }

    pub fn increment_aabb_inters(&mut self)
        requires
            old(self).aabb_intersections < u32::MAX,
        ensures
            final(self).aabb_intersections == old(self).aabb_intersections + 1,
            final(self).ray_checks == old(self).ray_checks,
            final(self).ray_counter == old(self).ray_counter,
            final(self).object_intersections == old(self).object_intersections,
            final(self).timer == old(self).timer,
    {
        self.aabb_intersections += 1;
    }

    pub fn time_elapsed(self) -> std::time::Duration {
        instant_elapsed(self.timer)
    }
}

} // verus!
