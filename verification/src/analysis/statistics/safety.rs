use vstd::prelude::*;
use crate::counts::LabelCounts;
use crate::types::warnings::Warning;
use crate::text::contains_sub;
use crate::text::spec_contains;
use crate::text::first_token;
use crate::text::spec_first_token;
use crate::text::str_eq;

verus! {

/// Per-message frequency of type-casting warnings. `risky_patterns` is
/// reserved and stays empty under the current rules.
#[derive(Debug)]
pub struct CastingStatistics {
    pub total_casts: usize,
    pub by_type: LabelCounts,
    pub risky_patterns: LabelCounts,
}

/// Counters over warnings whose first message token is "Unsafe".
#[derive(Debug, Clone, Copy, PartialEq, Eq, Structural)]
pub struct UnsafeStatistics {
    pub total_unsafe: usize,
    pub raw_pointers: usize,
    pub ffi_calls: usize,
    pub mutable_statics: usize,
}

/// Counters over warnings whose first message token is "Thread".
#[derive(Debug, Clone, Copy, PartialEq, Eq, Structural)]
pub struct ThreadSafetyStatistics {
    pub total_issues: usize,
    pub send_sync_violations: usize,
    pub data_races: usize,
    pub lock_issues: usize,
}

/// Safety-related drill-down, dispatched on the first whitespace-delimited
/// token of the message: "Type", "Unsafe" or "Thread".
#[derive(Debug)]
pub struct SafetyStatistics {
    pub total_issues: usize,
    pub casting_details: CastingStatistics,
    pub unsafe_details: UnsafeStatistics,
    pub thread_safety_details: ThreadSafetyStatistics,
}

impl SafetyStatistics {
    pub open spec fn wf(self) -> bool {
        self.casting_details.by_type.wf() && self.casting_details.risky_patterns.wf()
    }

    pub fn new() -> (r: Self)
        ensures
            r.wf(),
            r.total_issues == 0,
            r.casting_details.total_casts == 0,
            forall|m: Seq<char>| r.casting_details.by_type.spec_count(m) == 0,
            forall|m: Seq<char>| r.casting_details.risky_patterns.spec_count(m) == 0,
            r.unsafe_details == (UnsafeStatistics {
                total_unsafe: 0,
                raw_pointers: 0,
                ffi_calls: 0,
                mutable_statics: 0,
            }),
            r.thread_safety_details == (ThreadSafetyStatistics {
                total_issues: 0,
                send_sync_violations: 0,
                data_races: 0,
                lock_issues: 0,
            }),
    {
        SafetyStatistics {
            total_issues: 0,
            casting_details: CastingStatistics {
                total_casts: 0,
                by_type: LabelCounts::new(),
                risky_patterns: LabelCounts::new(),
            },
            unsafe_details: UnsafeStatistics {
                total_unsafe: 0,
                raw_pointers: 0,
                ffi_calls: 0,
                mutable_statics: 0,
            },
            thread_safety_details: ThreadSafetyStatistics {
                total_issues: 0,
                send_sync_violations: 0,
                data_races: 0,
                lock_issues: 0,
            },
        }
    }

    /// Counts one warning, dispatching on the first token of its message:
    /// "Type" feeds the casting counters, "Unsafe" the unsafe counters
    /// (with raw-pointer / FFI / static-mut sub-counts), "Thread" the
    /// thread-safety counters; any other token only grows the total.
    pub fn update(&mut self, warning: &Warning)
        requires
            old(self).wf(),
            old(self).total_issues < usize::MAX,
            old(self).casting_details.total_casts < usize::MAX,
            old(self).casting_details.by_type.spec_count(warning.message@) < usize::MAX,
            old(self).unsafe_details.total_unsafe < usize::MAX,
            old(self).unsafe_details.raw_pointers < usize::MAX,
            old(self).unsafe_details.ffi_calls < usize::MAX,
            old(self).unsafe_details.mutable_statics < usize::MAX,
            old(self).thread_safety_details.total_issues < usize::MAX,
            old(self).thread_safety_details.send_sync_violations < usize::MAX,
            old(self).thread_safety_details.data_races < usize::MAX,
            old(self).thread_safety_details.lock_issues < usize::MAX,
        ensures
            final(self).wf(),
            final(self).total_issues == old(self).total_issues + 1,
            final(self).casting_details.total_casts == old(self).casting_details.total_casts + (
            if spec_first_token(warning.message@) == "Type"@ {
                1int
            } else {
                0
            }),
            forall|m: Seq<char>|
                final(self).casting_details.by_type.spec_count(m) == old(
                    self,
                ).casting_details.by_type.spec_count(m) + (if m == warning.message@
                    && spec_first_token(m) == "Type"@ {
                    1int
                } else {
                    0
                }),
            forall|m: Seq<char>|
                final(self).casting_details.risky_patterns.spec_count(m) == old(
                    self,
                ).casting_details.risky_patterns.spec_count(m),
            final(self).unsafe_details.total_unsafe == old(self).unsafe_details.total_unsafe + (
            if spec_first_token(warning.message@) == "Unsafe"@ {
                1int
            } else {
                0
            }),
            final(self).unsafe_details.raw_pointers == old(self).unsafe_details.raw_pointers + (
            if spec_first_token(warning.message@) == "Unsafe"@ && spec_contains(
                warning.message@,
                "raw pointer"@,
            ) {
                1int
            } else {
                0
            }),
            final(self).unsafe_details.ffi_calls == old(self).unsafe_details.ffi_calls + (
            if spec_first_token(warning.message@) == "Unsafe"@ && spec_contains(
                warning.message@,
                "FFI"@,
            ) {
                1int
            } else {
                0
            }),
            final(self).unsafe_details.mutable_statics == old(
                self,
            ).unsafe_details.mutable_statics + (if spec_first_token(warning.message@)
                == "Unsafe"@ && spec_contains(warning.message@, "static mut"@) {
                1int
            } else {
                0
            }),
            final(self).thread_safety_details.total_issues == old(
                self,
            ).thread_safety_details.total_issues + (if spec_first_token(warning.message@)
                == "Thread"@ {
                1int
            } else {
                0
            }),
            final(self).thread_safety_details.send_sync_violations == old(
                self,
            ).thread_safety_details.send_sync_violations + (if spec_first_token(warning.message@)
                == "Thread"@ && (spec_contains(warning.message@, "Send"@) || spec_contains(
                warning.message@,
                "Sync"@,
            )) {
                1int
            } else {
                0
            }),
            final(self).thread_safety_details.data_races == old(
                self,
            ).thread_safety_details.data_races + (if spec_first_token(warning.message@)
                == "Thread"@ && spec_contains(warning.message@, "data race"@) {
                1int
            } else {
                0
            }),
            final(self).thread_safety_details.lock_issues == old(
                self,
            ).thread_safety_details.lock_issues + (if spec_first_token(warning.message@)
                == "Thread"@ && spec_contains(warning.message@, "lock"@) {
                1int
            } else {
                0
            }),
    {
        self.total_issues = self.total_issues + 1;
        proof {
            reveal_strlit("Type");
            reveal_strlit("Unsafe");
            reveal_strlit("Thread");
            assert("Type"@.len() == 4);
            assert("Unsafe"@.len() == 6);
            assert("Thread"@.len() == 6);
            assert("Unsafe"@[0] == 'U');
            assert("Thread"@[0] == 'T');
            assert("Type"@ != "Unsafe"@);
            assert("Type"@ != "Thread"@);
            assert("Unsafe"@ != "Thread"@);
        }
        let token = first_token(warning.message.as_str());
        if str_eq(token.as_str(), "Type") {
            self.casting_details.total_casts = self.casting_details.total_casts + 1;
            self.casting_details.by_type.increment(warning.message.as_str());
        } else if str_eq(token.as_str(), "Unsafe") {
            self.unsafe_details.total_unsafe = self.unsafe_details.total_unsafe + 1;
            if contains_sub(warning.message.as_str(), "raw pointer") {
                self.unsafe_details.raw_pointers = self.unsafe_details.raw_pointers + 1;
            }
            if contains_sub(warning.message.as_str(), "FFI") {
                self.unsafe_details.ffi_calls = self.unsafe_details.ffi_calls + 1;
            }
            if contains_sub(warning.message.as_str(), "static mut") {
                self.unsafe_details.mutable_statics = self.unsafe_details.mutable_statics + 1;
            }
        } else if str_eq(token.as_str(), "Thread") {
            self.thread_safety_details.total_issues = self.thread_safety_details.total_issues
                + 1;
            if contains_sub(warning.message.as_str(), "Send") || contains_sub(
                warning.message.as_str(),
                "Sync",
            ) {
                self.thread_safety_details.send_sync_violations =
                    self.thread_safety_details.send_sync_violations + 1;
            }
            if contains_sub(warning.message.as_str(), "data race") {
                self.thread_safety_details.data_races = self.thread_safety_details.data_races
                    + 1;
            }
            if contains_sub(warning.message.as_str(), "lock") {
                self.thread_safety_details.lock_issues = self.thread_safety_details.lock_issues
                    + 1;
            }
        }
    }
}

} // verus!
