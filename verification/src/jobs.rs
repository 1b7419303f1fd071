//! Jobs: the failure policy between the WIT record and the proto message.

use vstd::prelude::*;
use crate::json_text::{
    json_member, json_object, json_int, json_reformatted, object_text, opt_member, opt_quoted,
    opt_string_json, push_member, push_opt_member, reformat_json, uint_text,
};
use crate::query::views;
use crate::text::{concat, opt_view};
use crate::time::{duration_fields, humantime_duration, interval_in_range, interval_pb, interval_text, interval_wit};

verus! {

/// What the scheduler does when a triggered job fails.
#[derive(PartialEq, Eq, Debug)]
pub enum JobFailurePolicy {
    Drop,
    Constant { max_retries: Option<u32>, interval: Option<String> },
}

/// The proto `JobFailurePolicy` oneof; the interval as (seconds, nanos).
#[derive(PartialEq, Eq, Clone, Copy, Debug)]
pub enum FailurePolicyPb {
    Drop,
    Constant { interval: Option<(i64, i32)>, max_retries: Option<u32> },
}

/// The proto policy of a WIT policy: the retry interval parsed as a
/// duration. `None` when the interval is not a duration the proto can hold
/// (a programming error of the app).
pub fn failure_policy_pb(policy: &JobFailurePolicy) -> (r: Option<FailurePolicyPb>)
    requires
        policy matches JobFailurePolicy::Constant { interval: Some(text), .. } ==> interval_in_range(text@),
    ensures
        match policy {
            JobFailurePolicy::Drop => r == Some(FailurePolicyPb::Drop),
            JobFailurePolicy::Constant { max_retries, interval } => match interval {
                None => r == Some(FailurePolicyPb::Constant { interval: None, max_retries: *max_retries }),
                Some(text) => match humantime_duration(text@) {
                    Some(d) => match duration_fields(d) {
                        Some(f) => r == Some(FailurePolicyPb::Constant { interval: Some(f), max_retries: *max_retries }),
                        None => r is None,
                    },
                    None => r is None,
                },
            },
        },
{
    match policy {
        JobFailurePolicy::Drop => Some(FailurePolicyPb::Drop),
        JobFailurePolicy::Constant { max_retries, interval } => match interval {
            None => Some(FailurePolicyPb::Constant { interval: None, max_retries: *max_retries }),
            Some(text) => match interval_pb(text.as_str()) {
                Some(f) => Some(FailurePolicyPb::Constant { interval: Some(f), max_retries: *max_retries }),
                None => None,
            },
        },
    }
}

/// The WIT policy of a proto policy (none when the oneof is unset); the
/// interval rendered as a Go-style duration.
pub fn failure_policy_wit(policy: Option<FailurePolicyPb>) -> (r: Option<JobFailurePolicy>)
    ensures
        match policy {
            None => r is None,
            Some(FailurePolicyPb::Drop) => r matches Some(JobFailurePolicy::Drop),
            Some(FailurePolicyPb::Constant { interval, max_retries }) => r matches Some(
                JobFailurePolicy::Constant { max_retries: m, interval: i },
            ) && m == max_retries && match interval {
                Some(d) => i matches Some(t) && t@ == interval_text(d.0, d.1),
                None => i is None,
            },
        },
{
    match policy {
        None => None,
        Some(FailurePolicyPb::Drop) => Some(JobFailurePolicy::Drop),
        Some(FailurePolicyPb::Constant { interval, max_retries }) => {
            let i = match interval {
                Some((s, n)) => Some(interval_wit(s, n)),
                None => None,
            };
            Some(JobFailurePolicy::Constant { max_retries, interval: i })
        },
    }
}

/// A job and its schedule.
pub struct Job {
    pub schedule: Option<String>,
    pub repeats: Option<u32>,
    pub due_time: Option<String>,
    pub ttl: Option<String>,
    /// The job's payload, JSON text.
    pub data: Option<String>,
    pub failure_policy: Option<JobFailurePolicy>,
}

/// A failure policy as the HTTP jobs API writes it.
pub open spec fn policy_json(p: JobFailurePolicy) -> Seq<char> {
    match p {
        JobFailurePolicy::Drop => json_object(seq![json_member("drop"@, json_object(Seq::empty()))]),
        JobFailurePolicy::Constant { max_retries, interval } => json_object(seq![json_member(
            "constant"@,
            json_object(
                opt_member("interval"@, opt_string_json(interval)) + opt_member(
                    "max_retries"@,
                    match max_retries {
                        Some(n) => Some(json_int(n as int)),
                        None => None,
                    },
                ),
            ),
        )]),
    }
}

/// The body of a schedule request: the set fields, `overwrite` when asked
/// for, members ordered by key; the payload embedded as the JSON it is.
/// None when the payload is not JSON (a programming error of the app).
pub open spec fn schedule_body_of(j: Job, overwrite: bool) -> Option<Seq<char>> {
    let data: Option<Option<Seq<char>>> = match j.data {
        Some(t) => match json_reformatted(t@) {
            Some(v) => Some(Some(v)),
            None => None,
        },
        None => Some(None),
    };
    match data {
        None => None,
        Some(d) => Some(json_object(
            opt_member("data"@, d) + opt_member("dueTime"@, opt_string_json(j.due_time))
                + opt_member("failure_policy"@, match j.failure_policy {
                Some(p) => Some(policy_json(p)),
                None => None,
            }) + (if overwrite { seq![json_member("overwrite"@, "true"@)] } else { Seq::empty() })
                + opt_member("repeats"@, match j.repeats {
                Some(n) => Some(json_int(n as int)),
                None => None,
            }) + opt_member("schedule"@, opt_string_json(j.schedule)) + opt_member(
                "ttl"@,
                opt_string_json(j.ttl),
            ),
        )),
    }
}

fn policy_text(p: &JobFailurePolicy) -> (r: String)
    ensures
        r@ == policy_json(*p),
{
    let mut outer: Vec<String> = Vec::new();
    match p {
        JobFailurePolicy::Drop => {
            let empty: Vec<String> = Vec::new();
            assert(views(empty@) =~= Seq::<Seq<char>>::empty());
            push_member(&mut outer, "drop", object_text(&empty).as_str());
            assert(views(outer@) =~= seq![json_member("drop"@, json_object(Seq::empty()))]);
        },
        JobFailurePolicy::Constant { max_retries, interval } => {
            let mut inner: Vec<String> = Vec::new();
            push_opt_member(&mut inner, "interval", opt_quoted(interval));
            let retries = match max_retries {
                Some(n) => Some(uint_text(*n)),
                None => None,
            };
            push_opt_member(&mut inner, "max_retries", retries);
            push_member(&mut outer, "constant", object_text(&inner).as_str());
            assert(views(outer@) =~= seq![json_member(
                "constant"@,
                json_object(
                    opt_member("interval"@, opt_string_json(*interval)) + opt_member(
                        "max_retries"@,
                        match *max_retries {
                            Some(n) => Some(json_int(n as int)),
                            None => None,
                        },
                    ),
                ),
            )]);
        },
    }
    object_text(&outer)
}

/// Write the body of a schedule request; none when the payload is not JSON.
pub fn schedule_body(job: &Job, overwrite: bool) -> (r: Option<String>)
    ensures
        opt_view(r) == schedule_body_of(*job, overwrite),
{
    let ghost j = *job;
    let data = match &job.data {
        Some(t) => match reformat_json(t.as_str()) {
            Some(v) => Some(v),
            None => return None,
        },
        None => None,
    };
    let mut members: Vec<String> = Vec::new();
    push_opt_member(&mut members, "data", data);
    push_opt_member(&mut members, "dueTime", opt_quoted(&job.due_time));
    let policy = match &job.failure_policy {
        Some(p) => Some(policy_text(p)),
        None => None,
    };
    push_opt_member(&mut members, "failure_policy", policy);
    let ghost m3 = views(members@);
    if overwrite {
        let t = concat("true", "");
        proof {
            reveal_strlit("");
            assert(t@ =~= "true"@);
        }
        push_member(&mut members, "overwrite", t.as_str());
    }
    assert(views(members@) =~= m3 + (if overwrite { seq![json_member("overwrite"@, "true"@)] } else { Seq::empty() }));
    let repeats = match job.repeats {
        Some(n) => Some(uint_text(n)),
        None => None,
    };
    push_opt_member(&mut members, "repeats", repeats);
    push_opt_member(&mut members, "schedule", opt_quoted(&job.schedule));
    push_opt_member(&mut members, "ttl", opt_quoted(&job.ttl));
    let body = object_text(&members);
    Some(body)
}

} // verus!
