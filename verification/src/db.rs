//! The queries on the history of prompts.

use crate::text::{decimal, decimal_chars, push_chars};
use vstd::prelude::*;

verus! {

/// The order in which prompts are selected, by id.
#[derive(Debug, Clone, Copy, PartialEq, Eq, Structural)]
pub enum OrderBy {
    #[allow(dead_code)]
    Asc,
    Desc,
}

/// Which prompts to select.
#[derive(Debug, Clone, Copy, PartialEq, Eq, Structural)]
pub struct SelectOpts {
    /// At most this many prompts.
    pub limit: Option<usize>,
    /// In this order of ids; in the order of the table where `None`.
    pub order_by: Option<OrderBy>,
}

impl Default for SelectOpts {
    fn default() -> (r: Self)
        ensures
            r.limit is None,
            r.order_by is None,
    {
        SelectOpts { limit: None, order_by: None }
    }
}

/// The query that selects every column of the prompts.
pub const SELECT_PROMPTS: &'static str = "SELECT id, mode, role, content, karma, tokens, created_at FROM prompts";

/// What orders the selection by id.
pub const ORDER_BY_ID: &'static str = " ORDER BY id ";

/// Ascending order.
pub const ASC: &'static str = "ASC";

/// Descending order.
pub const DESC: &'static str = "DESC";

/// What limits the selection.
pub const LIMIT: &'static str = " LIMIT ";

/// The SQL text that selects the prompts as `opts` says.
pub open spec fn select_prompts_query(opts: SelectOpts) -> Seq<char> {
    let ordered = match opts.order_by {
        Some(OrderBy::Asc) => SELECT_PROMPTS@ + ORDER_BY_ID@ + ASC@,
        Some(OrderBy::Desc) => SELECT_PROMPTS@ + ORDER_BY_ID@ + DESC@,
        None => SELECT_PROMPTS@,
    };
    match opts.limit {
        Some(limit) => ordered + LIMIT@ + decimal(limit as nat),
        None => ordered,
    }
}

/// The SQL text that selects the prompts as `opts` says (see
/// [`select_prompts_query`]).
pub fn select_prompts_sql(opts: &SelectOpts) -> (r: String)
    ensures
        r@ == select_prompts_query(*opts),
{
    let mut sql = String::from_str(SELECT_PROMPTS);
    if let Some(order_by) = opts.order_by {
        sql.append(ORDER_BY_ID);
        sql.append(
            match order_by {
                OrderBy::Asc => ASC,
                OrderBy::Desc => DESC,
            },
        );
    }
    if let Some(limit) = opts.limit {
        sql.append(LIMIT);
        push_chars(&mut sql, &decimal_chars(limit as u64));
    }
    sql
}

/// The selection of the latest prompt.
pub fn latest_prompt_opts() -> (r: SelectOpts)
    ensures
        r.limit == Some(1usize),
        r.order_by == Some(OrderBy::Desc),
{
    SelectOpts { limit: Some(1), order_by: Some(OrderBy::Desc) }
}

} // verus!
