//! The declarative command tree: resources, their operations, and the
//! parameters each operation accepts. The tree itself is data; the
//! lookup of an operation by resource and name lives here with it.
use vstd::prelude::*;

verus! {

/// Where a declared parameter lands in the request.
#[derive(Debug, Clone, Copy, PartialEq, Eq, Structural)]
pub enum ParamLocation {
    Path,
    Query,
    Body,
    Header,
}

/// One declared parameter of an operation.
#[derive(Debug, PartialEq, Eq)]
pub struct ParamDef {
    pub name: String,
    pub flag: String,
    pub param_type: String,
    pub location: ParamLocation,
}

/// One operation of a resource: its method, path template, default
/// query and header entries, and declared parameters.
#[derive(Debug, PartialEq, Eq)]
pub struct Operation {
    pub name: String,
    pub method: String,
    pub path: String,
    pub headers: Option<Vec<(String, String)>>,
    pub query: Option<Vec<(String, String)>>,
    pub params: Vec<ParamDef>,
}

/// One resource with its operations.
#[derive(Debug, PartialEq, Eq)]
pub struct Resource {
    pub name: String,
    pub ops: Vec<Operation>,
}

/// The whole command tree.
#[derive(Debug, PartialEq, Eq)]
pub struct CommandTree {
    pub version: u32,
    pub default_linkedin_version: String,
    pub default_base_url: String,
    pub resources: Vec<Resource>,
}

/// Index of the first resource named `res`, searching from `i`.
pub open spec fn resource_index_from(rs: Seq<Resource>, res: Seq<char>, i: int) -> Option<int>
    decreases rs.len() - i,
{
    if i < 0 || i >= rs.len() {
        None
    } else if rs[i].name@ == res {
        Some(i)
    } else {
        resource_index_from(rs, res, i + 1)
    }
}

/// Index of the first operation named `op`, searching from `i`.
pub open spec fn op_index_from(ops: Seq<Operation>, op: Seq<char>, i: int) -> Option<int>
    decreases ops.len() - i,
{
    if i < 0 || i >= ops.len() {
        None
    } else if ops[i].name@ == op {
        Some(i)
    } else {
        op_index_from(ops, op, i + 1)
    }
}

/// The operation `res op` names: the first operation named `op` of
/// the first resource named `res`.
pub open spec fn spec_find_op(tree: CommandTree, res: Seq<char>, op: Seq<char>) -> Option<
    Operation,
> {
    match resource_index_from(tree.resources@, res, 0) {
        Some(i) => match op_index_from(tree.resources@[i].ops@, op, 0) {
            Some(j) => Some(tree.resources@[i].ops@[j]),
            None => None,
        },
        None => None,
    }
}

/// Looks an operation up by resource and operation name.
pub fn find_op<'a>(tree: &'a CommandTree, res: &str, op: &str) -> (r: Option<&'a Operation>)
    ensures
        r is Some <==> spec_find_op(*tree, res@, op@) is Some,
        r matches Some(o) ==> Some(*o) == spec_find_op(*tree, res@, op@),
{
    let n = tree.resources.len();
    let mut i: usize = 0;
    while i < n
        invariant
            n == tree.resources@.len(),
            i <= n,
            resource_index_from(tree.resources@, res@, 0) == resource_index_from(
                tree.resources@,
                res@,
                i as int,
            ),
        decreases n - i,
    {
        if crate::strutil::str_eq(tree.resources[i].name.as_str(), res) {
            let ops = &tree.resources[i].ops;
            let m = ops.len();
            let mut j: usize = 0;
            while j < m
                invariant
                    m == ops@.len(),
                    j <= m,
                    resource_index_from(tree.resources@, res@, 0) == Some(i as int),
                    i < tree.resources@.len(),
                    ops@ == tree.resources@[i as int].ops@,
                    op_index_from(ops@, op@, 0) == op_index_from(ops@, op@, j as int),
                decreases m - j,
            {
                if crate::strutil::str_eq(ops[j].name.as_str(), op) {
                    return Some(&ops[j]);
                }
                j = j + 1;
            }
            return None;
        }
        i = i + 1;
    }
    None
}

} // verus!
