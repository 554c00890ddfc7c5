//! Tag expressions (`@a and not @b`) and their evaluation against tags.

use vstd::prelude::*;

verus! {

/// A parsed tree of operations over tags.
#[derive(Debug)]
pub enum TagOperation {
    /// Both operands hold.
    And(Box<TagOperation>, Box<TagOperation>),
    /// At least one operand holds.
    Or(Box<TagOperation>, Box<TagOperation>),
    /// The operand does not hold.
    Not(Box<TagOperation>),
    /// The given tag (without `@`) is present.
    Tag(String),
}

/// Whether the expression `op` holds for the set of `tags`.
pub open spec fn tag_op_holds(op: TagOperation, tags: Seq<Seq<char>>) -> bool
    decreases op,
{
    match op {
        TagOperation::And(l, r) => tag_op_holds(*l, tags) && tag_op_holds(*r, tags),
        TagOperation::Or(l, r) => tag_op_holds(*l, tags) || tag_op_holds(*r, tags),
        TagOperation::Not(t) => !tag_op_holds(*t, tags),
        TagOperation::Tag(t) => tags.contains(t@),
    }
}

/// A copy of `op` with the same tags (strings compared by their characters).
pub open spec fn same_op(a: TagOperation, b: TagOperation) -> bool
    decreases a,
{
    match (a, b) {
        (TagOperation::And(l1, r1), TagOperation::And(l2, r2)) => same_op(*l1, *l2) && same_op(*r1, *r2),
        (TagOperation::Or(l1, r1), TagOperation::Or(l2, r2)) => same_op(*l1, *l2) && same_op(*r1, *r2),
        (TagOperation::Not(t1), TagOperation::Not(t2)) => same_op(*t1, *t2),
        (TagOperation::Tag(t1), TagOperation::Tag(t2)) => t1@ == t2@,
        _ => false,
    }
}

/// Every expression is a copy of itself.
pub proof fn lemma_same_op_reflexive(op: TagOperation)
    ensures
        same_op(op, op),
    decreases op,
{
    match op {
        TagOperation::And(l, r) => {
            lemma_same_op_reflexive(*l);
            lemma_same_op_reflexive(*r);
        },
        TagOperation::Or(l, r) => {
            lemma_same_op_reflexive(*l);
            lemma_same_op_reflexive(*r);
        },
        TagOperation::Not(t) => lemma_same_op_reflexive(*t),
        TagOperation::Tag(_) => {},
    }
}

/// Copies a tag expression.
pub fn copy_op(op: &TagOperation) -> (r: TagOperation)
    ensures
        same_op(*op, r),
    decreases op,
{
    match op {
        TagOperation::And(l, r) => TagOperation::And(Box::new(copy_op(l)), Box::new(copy_op(r))),
        TagOperation::Or(l, r) => TagOperation::Or(Box::new(copy_op(l)), Box::new(copy_op(r))),
        TagOperation::Not(t) => TagOperation::Not(Box::new(copy_op(t))),
        TagOperation::Tag(t) => TagOperation::Tag(t.clone()),
    }
}

impl Clone for TagOperation {
    fn clone(&self) -> (r: Self)
        ensures
            same_op(*self, r),
    {
        copy_op(self)
    }
}

/// Whether `tags` contains a tag equal to `name`.
pub fn contains_tag(tags: &Vec<String>, name: &String) -> (r: bool)
    ensures
        r == crate::gherkin::tags_view(tags@).contains(name@),
{
    let ghost view = crate::gherkin::tags_view(tags@);
    let mut i: usize = 0;
    while i < tags.len()
        invariant
            i <= tags@.len(),
            view == crate::gherkin::tags_view(tags@),
            forall|j: int| 0 <= j < i ==> view[j] != name@,
        decreases tags.len() - i,
    {
        if tags[i] == *name {
            assert(view[i as int] == name@);
            return true;
        }
        i += 1;
    }
    assert forall|j: int| 0 <= j < view.len() implies view[j] != name@ by {}
    false
}

impl TagOperation {
    /// Evaluates this expression against `tags`.
    pub fn eval(&self, tags: &Vec<String>) -> (r: bool)
        ensures
            r == tag_op_holds(*self, crate::gherkin::tags_view(tags@)),
        decreases self,
    {
        match self {
            TagOperation::And(l, r) => {
                let a = l.eval(tags);
                let b = r.eval(tags);
                a && b
            },
            TagOperation::Or(l, r) => {
                let a = l.eval(tags);
                let b = r.eval(tags);
                a || b
            },
            TagOperation::Not(t) => !t.eval(tags),
            TagOperation::Tag(t) => contains_tag(tags, t),
        }
    }
}

} // verus!
