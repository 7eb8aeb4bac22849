//! Numbered tasks and their labels.
use vstd::prelude::*;
use crate::text::{decimal, push_decimal, push_space_padded, space_padded};

verus! {

/// The number of a concurrent task.
#[derive(Debug)]
pub struct TaskId(pub u32);

/// The label of task `n`: `[Task n]`, the number left-aligned in a field of
/// three characters (`[Task 7  ]`, `[Task 1234]`).
pub open spec fn task_label(n: u32) -> Seq<char> {
    seq!['[', 'T', 'a', 's', 'k', ' '] + space_padded(decimal(n as nat), 3) + seq![']']
}

impl TaskId {
    /// The label of the task, `[Task n]` with the number padded to three characters.
    pub fn to_string(&self) -> (r: String)
        ensures
            r@ == task_label(self.0),
    {
        let mut digits = String::new();
        push_decimal(&mut digits, self.0 as u128);
        let mut s = String::new();
        crate::text::push_char(&mut s, '[');
        crate::text::push_char(&mut s, 'T');
        crate::text::push_char(&mut s, 'a');
        crate::text::push_char(&mut s, 's');
        crate::text::push_char(&mut s, 'k');
        crate::text::push_char(&mut s, ' ');
        push_space_padded(&mut s, digits.as_str(), 3);
        crate::text::push_char(&mut s, ']');
        assert(s@ =~= task_label(self.0));
        s
    }
}

} // verus!
