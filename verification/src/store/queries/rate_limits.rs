//! What is known of the usage limits.

use vstd::prelude::*;

use crate::clock::now_rfc3339;
use crate::store::models::{Percent, RateLimitState, RateLimitView};
use crate::store::{Store, StoreError, StoreView};

verus! {

/// The store after a limit was hit.
pub open spec fn limited(
    s: StoreView,
    limit_type: Seq<char>,
    reset_at: Seq<char>,
    usage_5h_pct: Percent,
    usage_7d_pct: Percent,
    now: Seq<char>,
) -> StoreView {
    StoreView {
        rate_limit: RateLimitView {
            is_rate_limited: true,
            limit_type: Some(limit_type),
            rate_limited_at: Some(now),
            reset_at: Some(reset_at),
            usage_5h_pct: Some(usage_5h_pct),
            usage_7d_pct: Some(usage_7d_pct),
            updated_at: now,
            ..s.rate_limit
        },
        ..s
    }
}

/// The store after a limit was lifted; the usage stays.
pub open spec fn unlimited(s: StoreView, now: Seq<char>) -> StoreView {
    StoreView {
        rate_limit: RateLimitView {
            is_rate_limited: false,
            limit_type: None,
            rate_limited_at: None,
            reset_at: None,
            updated_at: now,
            ..s.rate_limit
        },
        ..s
    }
}

/// The store after the usage was measured; the limit stays.
pub open spec fn usage_measured(
    s: StoreView,
    usage_5h_pct: Percent,
    usage_7d_pct: Percent,
    now: Seq<char>,
) -> StoreView {
    StoreView {
        rate_limit: RateLimitView {
            usage_5h_pct: Some(usage_5h_pct),
            usage_7d_pct: Some(usage_7d_pct),
            updated_at: now,
            ..s.rate_limit
        },
        ..s
    }
}

impl Store {
    /// What is known of the usage limits.
    pub fn get_rate_limit_state(&self) -> (r: Result<RateLimitState, StoreError>)
        ensures
            r is Ok,
            r->Ok_0@ == self@.rate_limit,
    {
        Ok(self.rate_limit.clone())
    }

    /// Records at the given time that a limit was hit.
    pub fn set_rate_limited_at(
        &mut self,
        limit_type: &str,
        reset_at: &str,
        usage_5h_pct: Percent,
        usage_7d_pct: Percent,
        now: &str,
    ) -> (r: Result<(), StoreError>)
        requires
            old(self)@.wf(),
        ensures
            r is Ok,
            final(self)@.wf(),
            final(self)@ == limited(
                old(self)@,
                limit_type@,
                reset_at@,
                usage_5h_pct,
                usage_7d_pct,
                now@,
            ),
    {
        self.rate_limit.is_rate_limited = true;
        self.rate_limit.limit_type = Some(limit_type.to_owned());
        self.rate_limit.rate_limited_at = Some(now.to_owned());
        self.rate_limit.reset_at = Some(reset_at.to_owned());
        self.rate_limit.usage_5h_pct = Some(usage_5h_pct);
        self.rate_limit.usage_7d_pct = Some(usage_7d_pct);
        self.rate_limit.updated_at = now.to_owned();
        proof {
            assert(self@ =~= limited(
                old(self)@,
                limit_type@,
                reset_at@,
                usage_5h_pct,
                usage_7d_pct,
                now@,
            ));
        }
        Ok(())
    }

    /// Records that a limit was hit.
    pub fn set_rate_limited(
        &mut self,
        limit_type: &str,
        reset_at: &str,
        usage_5h_pct: Percent,
        usage_7d_pct: Percent,
    ) -> (r: Result<(), StoreError>)
        requires
            old(self)@.wf(),
        ensures
            r is Ok,
            final(self)@.wf(),
            exists|now: Seq<char>|
                final(self)@ == #[trigger] limited(
                    old(self)@,
                    limit_type@,
                    reset_at@,
                    usage_5h_pct,
                    usage_7d_pct,
                    now,
                ),
    {
        let now = now_rfc3339();
        self.set_rate_limited_at(limit_type, reset_at, usage_5h_pct, usage_7d_pct, now.as_str())
    }

    /// Records at the given time that the limit was lifted.
    pub fn clear_rate_limit_at(&mut self, now: &str) -> (r: Result<(), StoreError>)
        requires
            old(self)@.wf(),
        ensures
            r is Ok,
            final(self)@.wf(),
            final(self)@ == unlimited(old(self)@, now@),
    {
        self.rate_limit.is_rate_limited = false;
        self.rate_limit.limit_type = None;
        self.rate_limit.rate_limited_at = None;
        self.rate_limit.reset_at = None;
        self.rate_limit.updated_at = now.to_owned();
        proof {
            assert(self@ =~= unlimited(old(self)@, now@));
        }
        Ok(())
    }

    /// Records that the limit was lifted.
    pub fn clear_rate_limit(&mut self) -> (r: Result<(), StoreError>)
        requires
            old(self)@.wf(),
        ensures
            r is Ok,
            final(self)@.wf(),
            exists|now: Seq<char>| final(self)@ == #[trigger] unlimited(old(self)@, now),
    {
        let now = now_rfc3339();
        self.clear_rate_limit_at(now.as_str())
    }

    /// Records at the given time how much of the windows is used.
    pub fn update_usage_windows_at(
        &mut self,
        usage_5h_pct: Percent,
        usage_7d_pct: Percent,
        now: &str,
    ) -> (r: Result<(), StoreError>)
        requires
            old(self)@.wf(),
        ensures
            r is Ok,
            final(self)@.wf(),
            final(self)@ == usage_measured(old(self)@, usage_5h_pct, usage_7d_pct, now@),
    {
        self.rate_limit.usage_5h_pct = Some(usage_5h_pct);
        self.rate_limit.usage_7d_pct = Some(usage_7d_pct);
        self.rate_limit.updated_at = now.to_owned();
        proof {
            assert(self@ =~= usage_measured(old(self)@, usage_5h_pct, usage_7d_pct, now@));
        }
        Ok(())
    }

    /// Records how much of the windows is used.
    pub fn update_usage_windows(&mut self, usage_5h_pct: Percent, usage_7d_pct: Percent) -> (r:
        Result<(), StoreError>)
        requires
            old(self)@.wf(),
        ensures
            r is Ok,
            final(self)@.wf(),
            exists|now: Seq<char>|
                final(self)@ == #[trigger] usage_measured(
                    old(self)@,
                    usage_5h_pct,
                    usage_7d_pct,
                    now,
                ),
    {
        let now = now_rfc3339();
        self.update_usage_windows_at(usage_5h_pct, usage_7d_pct, now.as_str())
    }
}

} // verus!
