//! The live height and speed that the desk's notifications feed, read by the
//! move loops.

use vstd::prelude::*;

use crate::protocol::{notified_height, notified_speed, parse_height, parse_speed};

verus! {

/// The abstract content of [`Readings`].
pub struct ReadingsView {
    /// Most recent raw height, if any.
    pub height: Option<i32>,
    /// Most recent signed speed, if any.
    pub speed: Option<i32>,
    /// Number of height notifications taken, modulo 2^64.
    pub updates: u64,
}

/// The latest height and speed reported by the desk, plus a counter bumped on
/// every height notification so a waiting move can tell that a fresh reading
/// landed.
pub struct Readings {
    height: Option<i32>,
    speed: Option<i32>,
    updates: u64,
}

/// The counter after one more notification: it wraps around at `u64::MAX`.
pub open spec fn next_count(n: u64) -> u64 {
    if n == u64::MAX {
        0
    } else {
        (n + 1) as u64
    }
}

/// The readings after a height notification: one shorter than two bytes
/// changes nothing; otherwise the height is replaced, the speed too when the
/// notification carries one, and the counter moves on by one.
pub open spec fn after_notification(r: ReadingsView, data: Seq<u8>) -> ReadingsView {
    match notified_height(data) {
        None => r,
        Some(h) => ReadingsView {
            height: Some(h as i32),
            speed: match notified_speed(data) {
                Some(v) => Some(v as i32),
                None => r.speed,
            },
            updates: next_count(r.updates),
        },
    }
}

impl View for Readings {
    type V = ReadingsView;

    closed spec fn view(&self) -> ReadingsView {
        ReadingsView { height: self.height, speed: self.speed, updates: self.updates }
    }
}

impl Readings {
    /// A height is a `u16` count and a speed an `i16`.
    #[verifier::type_invariant]
    closed spec fn in_range(self) -> bool {
        &&& (self.height matches Some(h) ==> 0 <= h <= 65535)
        &&& (self.speed matches Some(v) ==> -32768 <= v <= 32767)
    }

    /// Nothing known yet.
    pub fn new() -> (r: Readings)
        ensures
            r@.height is None,
            r@.speed is None,
            r@.updates == 0,
    {
        Readings { height: None, speed: None, updates: 0 }
    }

    /// Most recent raw height count, or `None` if unknown.
    pub fn current_raw(&self) -> (h: Option<i32>)
        ensures
            h == self@.height,
            h matches Some(v) ==> 0 <= v <= 65535,
    {
        proof {
            use_type_invariant(self);
        }
        self.height
    }

    /// Most recent signed speed, or `None` if unknown.
    pub fn current_speed(&self) -> (v: Option<i32>)
        ensures
            v == self@.speed,
            v matches Some(s) ==> -32768 <= s <= 32767,
    {
        proof {
            use_type_invariant(self);
        }
        self.speed
    }

    /// How many height notifications have landed, modulo 2^64.
    pub fn updates(&self) -> (n: u64)
        ensures
            n == self@.updates,
    {
        self.updates
    }

    /// Take a height notification. One shorter than two bytes is ignored;
    /// otherwise the height is replaced, the speed too when the notification
    /// carries one, and the counter moves on by one. Returns the new height,
    /// which the caller reports.
    pub fn on_height(&mut self, data: &[u8]) -> (reported: Option<i32>)
        ensures
            final(self)@ == after_notification(old(self)@, data@),
            reported == final(self)@.height && data@.len() >= 2 || reported is None && data@.len() < 2,
    {
        proof {
            use_type_invariant(&*self);
        }
        let h = match parse_height(data) {
            Some(h) => h,
            None => return None,
        };
        self.height = Some(h);
        if let Some(v) = parse_speed(data) {
            self.speed = Some(v);
        }
        self.updates = self.updates.wrapping_add(1);
        Some(h)
    }

    /// Forget the height (the desk was disconnected). The speed and the
    /// counter are left as they are.
    pub fn clear_height(&mut self)
        ensures
            final(self)@.height is None,
            final(self)@.speed == old(self)@.speed,
            final(self)@.updates == old(self)@.updates,
    {
        proof {
            use_type_invariant(&*self);
        }
        self.height = None;
    }
}

/// The height read back after a notification is the one it carried, and the
/// counter tells the notification apart from the state before it.
pub proof fn lemma_read_after_notification(r: ReadingsView, data: Seq<u8>)
    requires
        data.len() >= 2,
    ensures
        after_notification(r, data).height == Some(notified_height(data).unwrap() as i32),
        after_notification(r, data).updates != r.updates,
        data.len() >= 4 ==> after_notification(r, data).speed == Some(notified_speed(data).unwrap() as i32),
        data.len() < 4 ==> after_notification(r, data).speed == r.speed,
{
}

/// A notification too short to carry a height leaves the readings alone.
pub proof fn lemma_short_notification_ignored(r: ReadingsView, data: Seq<u8>)
    requires
        data.len() < 2,
    ensures
        after_notification(r, data) == r,
{
}

} // verus!
