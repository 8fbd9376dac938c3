//! The identifiers of the JSON schemas that the roles ask for, and the limit on
//! the number of tasks in the one for plans.
use vstd::prelude::*;

use crate::json::{json_with_number, json_with_number_of};

verus! {

/// Identifier of the clarifier's schema.
pub const QUESTIONS_V1_ID: &'static str = "kevin.questions.v1";

/// Identifier of the integrator's schema.
pub const INTEGRATION_V1_ID: &'static str = "kevin.integration.v1";

/// Identifier of the summariser's schema.
pub const SUMMARY_V1_ID: &'static str = "kevin.summary.v1";

/// Identifier of the understanding's schema.
pub const UNDERSTANDING_V1_ID: &'static str = "kevin.understanding.v1";

/// Identifier of the plan's schema.
pub const PLAN_V1_ID: &'static str = "kevin.plan.v1";

/// The most tasks that a plan may have.
pub const DEFAULT_MAX_TASKS: usize = 24;

/// The configured limit, at least one and never above the largest.
pub open spec fn max_items_spec(max_tasks: usize) -> usize {
    if max_tasks < 1 {
        1
    } else if max_tasks > DEFAULT_MAX_TASKS {
        DEFAULT_MAX_TASKS
    } else {
        max_tasks
    }
}

/// The configured limit, at least one and never above the largest.
pub fn max_items(max_tasks: usize) -> (r: usize)
    ensures
        r == max_items_spec(max_tasks),
        1 <= r <= DEFAULT_MAX_TASKS,
{
    if max_tasks < 1 {
        1
    } else if max_tasks > DEFAULT_MAX_TASKS {
        DEFAULT_MAX_TASKS
    } else {
        max_tasks
    }
}

/// Where the tasks stand in the plan's schema.
pub const TASKS: &'static str = "/properties/tasks";

/// The member that limits their number.
pub const MAX_ITEMS: &'static str = "maxItems";

/// The plan's schema with its number of tasks lowered to `max_tasks`, never
/// raised above the largest; `None` where the text is no such schema.
pub fn plan_with_max_tasks(schema: &str, max_tasks: usize) -> (r: Option<String>)
    ensures
        match r {
            Some(text) => json_with_number_of(
                schema@,
                TASKS@,
                MAX_ITEMS@,
                max_items_spec(max_tasks),
            ) == Some(text@),
            None => json_with_number_of(
                schema@,
                TASKS@,
                MAX_ITEMS@,
                max_items_spec(max_tasks),
            ) is None,
        },
{
    json_with_number(schema, TASKS, MAX_ITEMS, max_items(max_tasks))
}

/// The identifier of every schema, in a stable order.
pub fn all_ids() -> (r: Vec<&'static str>)
    ensures
        r@.len() == 5,
        r@[0]@ == UNDERSTANDING_V1_ID@,
        r@[1]@ == PLAN_V1_ID@,
        r@[2]@ == QUESTIONS_V1_ID@,
        r@[3]@ == INTEGRATION_V1_ID@,
        r@[4]@ == SUMMARY_V1_ID@,
{
    let mut out: Vec<&'static str> = Vec::new();
    out.push(UNDERSTANDING_V1_ID);
    out.push(PLAN_V1_ID);
    out.push(QUESTIONS_V1_ID);
    out.push(INTEGRATION_V1_ID);
    out.push(SUMMARY_V1_ID);
    out
}

// ---------------------------------------------------------------------------
// Laws
// ---------------------------------------------------------------------------
/// The limit on the number of tasks is the configured one where it lies between
/// one and the largest; a lower one becomes one, a higher one the largest.
pub proof fn law_plans_are_limited(max_tasks: usize)
    ensures
        1 <= max_tasks <= 24 ==> max_items_spec(max_tasks) == max_tasks,
        max_tasks == 0 ==> max_items_spec(max_tasks) == 1,
        max_tasks > 24 ==> max_items_spec(max_tasks) == 24,
{
}

} // verus!
