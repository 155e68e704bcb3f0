//! Watching a value against a quota and warning as it nears the limit.
use vstd::prelude::*;

verus! {

/// Something that delivers messages: a mail, a text, a log.
pub trait Messenger {
    fn send(&self, msg: &str);
}

/// How close a value has come to its quota.
#[derive(Clone, Copy, Debug, PartialEq, Eq, Structural)]
pub enum QuotaAlert {
    /// At or over the quota.
    Over,
    /// At 90% of the quota or more.
    Urgent,
    /// At 75% of the quota or more.
    Warning,
}

impl QuotaAlert {
    /// The message sent for this alert.
    pub fn message(&self) -> (r: &'static str)
        ensures
            *self == QuotaAlert::Over ==> r@ == "Error: You are over your quota!"@,
            *self == QuotaAlert::Urgent ==> r@ == "Urgent warning: You've used up over 90% of your quota!"@,
            *self == QuotaAlert::Warning ==> r@ == "Warning: You've used up over 75% of your quota!"@,
    {
        match self {
            QuotaAlert::Over => "Error: You are over your quota!",
            QuotaAlert::Urgent => "Urgent warning: You've used up over 90% of your quota!",
            QuotaAlert::Warning => "Warning: You've used up over 75% of your quota!",
        }
    }
}

/// The alert for `value` against the quota `max`, judged by the share
/// `value / max`: 1 or more, 0.9 or more, 0.75 or more, or less. With a quota
/// of 0 any positive value is over it, and a value of 0 raises nothing.
pub open spec fn alert_for(value: int, max: int) -> Option<QuotaAlert> {
    if max == 0 {
        if value > 0 {
            Some(QuotaAlert::Over)
        } else {
            None
        }
    } else if value >= max {
        Some(QuotaAlert::Over)
    } else if 10 * value >= 9 * max {
        Some(QuotaAlert::Urgent)
    } else if 4 * value >= 3 * max {
        Some(QuotaAlert::Warning)
    } else {
        None
    }
}

/// The alert that `value` raises against the quota `max`.
pub fn quota_alert(value: usize, max: usize) -> (r: Option<QuotaAlert>)
    ensures
        r == alert_for(value as int, max as int),
{
    let v = value as u128;
    let m = max as u128;
    if m == 0 {
        if v > 0 {
            Some(QuotaAlert::Over)
        } else {
            None
        }
    } else if v >= m {
        Some(QuotaAlert::Over)
    } else if 10 * v >= 9 * m {
        Some(QuotaAlert::Urgent)
    } else if 4 * v >= 3 * m {
        Some(QuotaAlert::Warning)
    } else {
        None
    }
}

/// Tracks a value against a quota and tells a messenger when it comes close.
pub struct LimitTracker<'a, T: Messenger> {
    messenger: &'a T,
    value: usize,
    max: usize,
}

impl<'a, T: Messenger> LimitTracker<'a, T> {
    /// The value last set.
    pub closed spec fn spec_value(&self) -> usize {
        self.value
    }

    /// The quota.
    pub closed spec fn spec_max(&self) -> usize {
        self.max
    }

    /// A tracker for the quota `max`, starting at 0.
    pub fn new(messenger: &'a T, max: usize) -> (r: LimitTracker<'a, T>)
        ensures
            r.spec_value() == 0,
            r.spec_max() == max,
    {
        LimitTracker { messenger, value: 0, max }
    }

    /// Sets the value, and sends the message of the alert that it raises, if
    /// any (see `quota_alert`).
    pub fn set_value(&mut self, value: usize)
        ensures
            final(self).spec_value() == value,
            final(self).spec_max() == old(self).spec_max(),
    {
        self.value = value;
        if let Some(alert) = quota_alert(self.value, self.max) {
            self.messenger.send(alert.message());
        }
    }
}

} // verus!
