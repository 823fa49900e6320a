//! The record API's routes, served under `API_BASE`.
use vstd::prelude::*;

verus! {

/// The prefix that every route of the record API is mounted under.
pub const API_BASE: &'static str = "/api/v0/";

#[derive(Clone, Copy, Debug, PartialEq, Eq, Structural)]
pub enum Method {
    Get,
    Post,
    Delete,
}

/// One endpoint of the record API.
#[derive(Clone, Copy, Debug)]
pub struct Route {
    pub method: Method,
    pub path: &'static str,
    pub handler: &'static str,
}

/// The routes of the record API, by method, path and handler name.
pub open spec fn api_routes() -> Seq<(Method, Seq<char>, Seq<char>)> {
    seq![
        (Method::Get, "/task/<id>"@, "retrieve_task"@),
        (Method::Get, "/task?<task_type>&<task_state>"@, "retrieve_filtered_tasks"@),
        (Method::Post, "/task"@, "create_task"@),
        (Method::Delete, "/task/<id>"@, "delete_task"@),
    ]
}

/// The route table of the record API: fetch by id, fetch by type and
/// state, insert, and delete by id.
pub fn rocket() -> (r: Vec<Route>)
    ensures
        r@.len() == api_routes().len(),
        forall|i: int| 0 <= i < r@.len() ==> (r@[i].method, r@[i].path@, r@[i].handler@) == api_routes()[i],
{
    let mut r: Vec<Route> = Vec::new();
    r.push(Route { method: Method::Get, path: "/task/<id>", handler: "retrieve_task" });
    r.push(Route { method: Method::Get, path: "/task?<task_type>&<task_state>", handler: "retrieve_filtered_tasks" });
    r.push(Route { method: Method::Post, path: "/task", handler: "create_task" });
    r.push(Route { method: Method::Delete, path: "/task/<id>", handler: "delete_task" });
    r
}

} // verus!
