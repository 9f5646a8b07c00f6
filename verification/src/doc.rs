//! The raw forecast document as a tree of named nodes.
//!
//! The document arrives as JSON; only three shapes matter to this
//! pipeline: string values, arrays, and objects with named fields. Every
//! other value (numbers, booleans, null) is carried as `Other`, so that
//! reading it as a string or walking into it fails the same way a missing
//! field does.

use vstd::prelude::*;

verus! {

/// One node of the raw document tree.
#[derive(Debug)]
pub enum Node {
    /// A string value.
    Text(String),
    /// An ordered collection of child nodes.
    List(Vec<Node>),
    /// Named fields, in the order the decoder handed them over.
    Object(Vec<(String, Node)>),
    /// Any other value; nothing in the pipeline can read it.
    Other,
}

/// The first field named `name`, if any.
pub open spec fn obj_field(fields: Seq<(String, Node)>, name: Seq<char>) -> Option<Node>
    decreases fields.len(),
{
    if fields.len() == 0 {
        None
    } else if fields[0].0@ == name {
        Some(fields[0].1)
    } else {
        obj_field(fields.drop_first(), name)
    }
}

/// The field named `name` of node `n`: nothing unless `n` is an object
/// with such a field.
pub open spec fn field_of(n: Node, name: Seq<char>) -> Option<Node> {
    match n {
        Node::Object(fields) => obj_field(fields@, name),
        _ => None,
    }
}

fn find_field<'a>(fields: &'a Vec<(String, Node)>, name: &String) -> (r: Option<&'a Node>)
    ensures
        match r {
            Some(n) => obj_field(fields@, name@) == Some(*n),
            None => obj_field(fields@, name@) is None,
        },
{
    let n = fields.len();
    let mut i: usize = 0;
    proof {
        assert(fields@.skip(0) =~= fields@);
    }
    while i < n
        invariant
            n == fields@.len(),
            0 <= i <= n,
            obj_field(fields@.skip(i as int), name@) == obj_field(fields@, name@),
        decreases n - i,
    {
        if fields[i].0 == *name {
            proof {
                assert(fields@.skip(i as int)[0] == fields@[i as int]);
            }
            return Some(&fields[i].1);
        }
        proof {
            assert(fields@.skip(i as int).drop_first() =~= fields@.skip(i as int + 1));
        }
        i = i + 1;
    }
    proof {
        assert(fields@.skip(n as int).len() == 0);
    }
    None
}

/// Look a field up on any node: the verified counterpart of `field_of`.
pub fn node_field<'a>(n: &'a Node, name: &String) -> (r: Option<&'a Node>)
    ensures
        match r {
            Some(f) => field_of(*n, name@) == Some(*f),
            None => field_of(*n, name@) is None,
        },
{
    match n {
        Node::Object(fields) => find_field(fields, name),
        _ => None,
    }
}

} // verus!
